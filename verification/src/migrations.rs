//! The layout of the data kept across an upgrade: three frames in a row (the
//! state, then the logger's data, then the monitor's data), each frame being
//! its payload's length as four little-endian bytes followed by the payload.

use vstd::prelude::*;

verus! {

/// The four little-endian bytes of a number below 2^32.
pub open spec fn le32(n: nat) -> Seq<u8> {
    seq![
        (n % 256) as u8,
        (n / 256 % 256) as u8,
        (n / 65536 % 256) as u8,
        (n / 16777216 % 256) as u8,
    ]
}

/// The number that four little-endian bytes stand for.
pub open spec fn le32_value(b: Seq<u8>) -> nat {
    (b[0] + 256 * b[1] + 65536 * b[2] + 16777216 * b[3]) as nat
}

/// A payload behind its length.
pub open spec fn frame(p: Seq<u8>) -> Seq<u8> {
    le32(p.len()) + p
}

/// The data kept across an upgrade.
pub open spec fn upgrade_data(state: Seq<u8>, logger: Seq<u8>, monitor: Seq<u8>) -> Seq<u8> {
    frame(state) + frame(logger) + frame(monitor)
}

/// The frame that starts at `at`: its payload and where the next frame
/// starts, or `None` when the bytes end before the frame does.
#[verifier::opaque]
pub open spec fn frame_at(buf: Seq<u8>, at: int) -> Option<(Seq<u8>, int)> {
    if 0 <= at && at + 4 <= buf.len() {
        let n = le32_value(buf.subrange(at, at + 4));
        if at + 4 + n <= buf.len() {
            Some((buf.subrange(at + 4, at + 4 + n), at + 4 + n))
        } else {
            None
        }
    } else {
        None
    }
}

/// The three payloads of upgrade data, read from the start.
pub open spec fn upgrade_payloads(buf: Seq<u8>) -> Option<(Seq<u8>, Seq<u8>, Seq<u8>)> {
    match frame_at(buf, 0) {
        None => None,
        Some((state, at1)) => match frame_at(buf, at1) {
            None => None,
            Some((logger, at2)) => match frame_at(buf, at2) {
                None => None,
                Some((monitor, _)) => Some((state, logger, monitor)),
            },
        },
    }
}

proof fn lemma_le32_round_trip(x: u32)
    ensures
        le32_value(le32(x as nat)) == x,
{
    assert((x % 256) + 256 * ((x / 256) % 256) + 65536 * ((x / 65536) % 256) + 16777216 * ((x
        / 16777216) % 256) == x) by (bit_vector);
}

/// A frame placed after any bytes is read back, whatever follows it.
proof fn lemma_frame_at(before: Seq<u8>, p: Seq<u8>, after: Seq<u8>)
    requires
        p.len() <= u32::MAX,
    ensures
        frame_at(before + frame(p) + after, before.len() as int) == Some(
            (p, (before.len() + 4 + p.len()) as int),
        ),
{
    reveal(frame_at);
    let buf = before + frame(p) + after;
    let at = before.len() as int;
    lemma_le32_round_trip(p.len() as u32);
    assert(buf.subrange(at, at + 4) =~= le32(p.len()));
    assert(buf.subrange(at + 4, at + 4 + p.len()) =~= p);
}

/// Reading the data kept across an upgrade gives back the three payloads that
/// were saved, whatever bytes follow them.
pub proof fn load_after_save(state: Seq<u8>, logger: Seq<u8>, monitor: Seq<u8>, rest: Seq<u8>)
    requires
        state.len() <= u32::MAX,
        logger.len() <= u32::MAX,
        monitor.len() <= u32::MAX,
    ensures
        upgrade_payloads(upgrade_data(state, logger, monitor) + rest) == Some((state, logger, monitor)),
{
    let buf = upgrade_data(state, logger, monitor) + rest;
    let fs = frame(state);
    let fl = frame(logger);
    let fm = frame(monitor);
    let a1 = (4 + state.len()) as int;
    let a2 = (a1 + 4 + logger.len()) as int;
    assert(fs.len() == a1);
    assert(frame_at(buf, 0) == Some((state, a1))) by {
        lemma_frame_at(Seq::<u8>::empty(), state, fl + fm + rest);
        assert(Seq::<u8>::empty() + fs + (fl + fm + rest) =~= buf);
    }
    assert(frame_at(buf, a1) == Some((logger, a2))) by {
        lemma_frame_at(fs, logger, fm + rest);
        assert(fs + fl + (fm + rest) =~= buf);
    }
    assert(frame_at(buf, a2) == Some((monitor, (a2 + 4 + monitor.len()) as int))) by {
        lemma_frame_at(fs + fl, monitor, rest);
        assert(fs + fl + fm + rest =~= buf);
    }
}

/// A frame is four header bytes followed by the payload, and the header
/// bytes are the payload's length in base 256, least significant first.
pub proof fn frame_header_is_length_le(p: Seq<u8>)
    requires
        p.len() <= u32::MAX,
    ensures
        frame(p).len() == 4 + p.len(),
        frame(p).skip(4) == p,
        frame(p)[0] as int == p.len() % 256,
        frame(p)[1] as int == p.len() / 256 % 256,
        frame(p)[2] as int == p.len() / 65536 % 256,
        frame(p)[3] as int == p.len() / 16777216 % 256,
        frame(p)[0] + 256 * frame(p)[1] + 65536 * frame(p)[2] + 16777216 * frame(p)[3] == p.len(),
{
    let f = frame(p);
    assert(f.skip(4) =~= p);
    lemma_le32_round_trip(p.len() as u32);
    assert(f[0] == le32(p.len())[0] && f[1] == le32(p.len())[1] && f[2] == le32(p.len())[2] && f[3]
        == le32(p.len())[3]);
}

/// The data kept across an upgrade holds the state's frame first, from the
/// start, then the logger's frame, then the monitor's frame, and nothing
/// more.
pub proof fn upgrade_data_layout(state: Seq<u8>, logger: Seq<u8>, monitor: Seq<u8>)
    ensures
        upgrade_data(state, logger, monitor).len() == 12 + state.len() + logger.len() + monitor.len(),
        upgrade_data(state, logger, monitor).subrange(0, 4 + state.len() as int) == frame(state),
        upgrade_data(state, logger, monitor).subrange(
            4 + state.len() as int,
            8 + state.len() + logger.len() as int,
        ) == frame(logger),
        upgrade_data(state, logger, monitor).skip(8 + state.len() + logger.len() as int) == frame(monitor),
{
    let d = upgrade_data(state, logger, monitor);
    assert(d.subrange(0, 4 + state.len() as int) =~= frame(state));
    assert(d.subrange(4 + state.len() as int, 8 + state.len() + logger.len() as int) =~= frame(logger));
    assert(d.skip(8 + state.len() + logger.len() as int) =~= frame(monitor));
}

/// Reading a frame at `at` takes its length from the four bytes there, least
/// significant first, and its payload from the bytes that follow; it fails
/// exactly when the bytes end before the header or the payload does.
pub proof fn frame_read_takes_length_le(buf: Seq<u8>, at: int)
    requires
        0 <= at,
    ensures
        at + 4 > buf.len() ==> frame_at(buf, at) is None,
        at + 4 <= buf.len() ==> {
            let n = buf[at] + 256 * buf[at + 1] + 65536 * buf[at + 2] + 16777216 * buf[at + 3];
            &&& at + 4 + n > buf.len() ==> frame_at(buf, at) is None
            &&& at + 4 + n <= buf.len() ==> frame_at(buf, at) == Some(
                (buf.subrange(at + 4, at + 4 + n), at + 4 + n),
            )
        },
{
    reveal(frame_at);
    if at + 4 <= buf.len() {
        let h = buf.subrange(at, at + 4);
        assert(h[0] == buf[at] && h[1] == buf[at + 1] && h[2] == buf[at + 2] && h[3] == buf[at + 3]);
    }
}

/// Appends a frame holding `payload` to `out`.
pub fn write_frame(out: &mut Vec<u8>, payload: &[u8])
    requires
        payload@.len() <= u32::MAX,
    ensures
        final(out)@ == old(out)@ + frame(payload@),
        final(out)@.len() == old(out)@.len() + 4 + payload@.len(),
        final(out)@[old(out)@.len() as int] as int == payload@.len() % 256,
        final(out)@[old(out)@.len() + 1int] as int == payload@.len() / 256 % 256,
        final(out)@[old(out)@.len() + 2int] as int == payload@.len() / 65536 % 256,
        final(out)@[old(out)@.len() + 3int] as int == payload@.len() / 16777216 % 256,
        final(out)@.skip(old(out)@.len() + 4int) == payload@,
{
    proof {
        frame_header_is_length_le(payload@);
        assert((old(out)@ + frame(payload@)).skip(old(out)@.len() + 4int) =~= frame(payload@).skip(4));
    }
    let len: u32 = payload.len() as u32;
    out.push((len % 256) as u8);
    out.push((len / 256 % 256) as u8);
    out.push((len / 65536 % 256) as u8);
    out.push((len / 16777216 % 256) as u8);
    let ghost head = out@;
    let mut i: usize = 0;
    while i < payload.len()
        invariant
            i <= payload@.len(),
            out@ == head + payload@.take(i as int),
        decreases payload@.len() - i,
    {
        proof {
            assert(payload@.take(i + 1) =~= payload@.take(i as int).push(payload@[i as int]));
        }
        out.push(payload[i]);
        i = i + 1;
    }
    proof {
        assert(payload@.take(payload@.len() as int) =~= payload@);
        assert(head =~= old(out)@ + le32(payload@.len()));
    }
}

/// The data to keep across an upgrade, from the serialised state, logger data
/// and monitor data.
pub fn save_upgrade_data(state: &[u8], logger: &[u8], monitor: &[u8]) -> (res: Vec<u8>)
    requires
        state@.len() <= u32::MAX,
        logger@.len() <= u32::MAX,
        monitor@.len() <= u32::MAX,
    ensures
        res@ == upgrade_data(state@, logger@, monitor@),
{
    let mut out: Vec<u8> = Vec::new();
    write_frame(&mut out, state);
    write_frame(&mut out, logger);
    write_frame(&mut out, monitor);
    proof {
        assert(out@ =~= upgrade_data(state@, logger@, monitor@));
    }
    out
}

/// Reads the frame that starts at `at`.
pub fn read_frame(buf: &[u8], at: usize) -> (res: Option<(Vec<u8>, usize)>)
    ensures
        match frame_at(buf@, at as int) {
            None => res is None,
            Some((p, next)) => res matches Some((q, n)) && q@ == p && n == next,
        },
{
    reveal(frame_at);
    if at > buf.len() || buf.len() - at < 4 {
        return None;
    }
    let n: u32 = buf[at] as u32 + 256 * (buf[at + 1] as u32) + 65536 * (buf[at + 2] as u32)
        + 16777216 * (buf[at + 3] as u32);
    let n: usize = n as usize;
    proof {
        assert(n == le32_value(buf@.subrange(at as int, at + 4)));
    }
    if buf.len() - at - 4 < n {
        return None;
    }
    let start: usize = at + 4;
    let end: usize = start + n;
    let mut payload: Vec<u8> = Vec::new();
    let mut i: usize = start;
    while i < end
        invariant
            start <= i <= end,
            end <= buf@.len(),
            payload@ == buf@.subrange(start as int, i as int),
        decreases end - i,
    {
        proof {
            assert(buf@.subrange(start as int, i + 1) =~= buf@.subrange(start as int, i as int).push(
                buf@[i as int],
            ));
        }
        payload.push(buf[i]);
        i = i + 1;
    }
    Some((payload, end))
}

/// Reads the serialised state, logger data and monitor data back from the
/// data kept across an upgrade; `None` when the bytes end too early.
pub fn load_upgrade_data(buf: &[u8]) -> (res: Option<(Vec<u8>, Vec<u8>, Vec<u8>)>)
    ensures
        match upgrade_payloads(buf@) {
            None => res is None,
            Some((s, l, m)) => res matches Some((a, b, c)) && a@ == s && b@ == l && c@ == m,
        },
{
    let (state, at1) = match read_frame(buf, 0) {
        Some(f) => f,
        None => {
            return None;
        },
    };
    let (logger, at2) = match read_frame(buf, at1) {
        Some(f) => f,
        None => {
            return None;
        },
    };
    let (monitor, _) = match read_frame(buf, at2) {
        Some(f) => f,
        None => {
            return None;
        },
    };
    Some((state, logger, monitor))
}

} // verus!
