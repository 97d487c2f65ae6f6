//! Ethereum addresses: parsing text into 20 bytes and writing them back in the
//! canonical form `0x` followed by 40 lower-case hex digits.

use std::str::FromStr;
use vstd::prelude::*;
use vstd::string::StringExecFns;

use crate::types::errors::UtilsError;

verus! {

/// A 20-byte Ethereum address, most significant byte first.
#[derive(Debug, Clone, Copy, PartialEq, Eq)]
pub struct H160(pub [u8; 20]);

/// A hex digit, in either case.
pub open spec fn is_hex_digit(c: char) -> bool {
    ('0' <= c && c <= '9') || ('a' <= c && c <= 'f') || ('A' <= c && c <= 'F')
}

/// The characters that hex decoding passes over.
pub open spec fn is_skipped_space(c: char) -> bool {
    c == ' ' || c == '\r' || c == '\n' || c == '\t'
}

/// The value of a hex digit.
pub open spec fn hex_value(c: char) -> int {
    if '0' <= c && c <= '9' {
        c as int - '0' as int
    } else if 'a' <= c && c <= 'f' {
        c as int - 'a' as int + 10
    } else {
        c as int - 'A' as int + 10
    }
}

/// The lower-case hex digit of a value below 16.
pub open spec fn hex_char(n: int) -> char {
    if n < 10 {
        ('0' as int + n) as char
    } else {
        ('a' as int + n - 10) as char
    }
}

/// The text with one leading `0x` removed, if it has one.
pub open spec fn strip_0x(s: Seq<char>) -> Seq<char> {
    if s.len() >= 2 && s[0] == '0' && s[1] == 'x' {
        s.skip(2)
    } else {
        s
    }
}

/// The hex digits of a text, in order.
pub open spec fn hex_digits(s: Seq<char>) -> Seq<char>
    decreases s.len(),
{
    if s.len() == 0 {
        Seq::empty()
    } else if is_hex_digit(s.last()) {
        hex_digits(s.drop_last()).push(s.last())
    } else {
        hex_digits(s.drop_last())
    }
}

/// Whether a text is an address: after an optional `0x`, nothing but hex
/// digits and spaces, with exactly 40 digits.
pub open spec fn is_h160_text(s: Seq<char>) -> bool {
    let t = strip_0x(s);
    &&& forall|i: int| 0 <= i < t.len() ==> is_hex_digit(#[trigger] t[i]) || is_skipped_space(t[i])
    &&& hex_digits(t).len() == 40
}

/// The 20 bytes that an address text stands for: its digits read in pairs.
pub open spec fn h160_bytes(s: Seq<char>) -> Seq<u8> {
    let d = hex_digits(strip_0x(s));
    Seq::new(20, |i: int| (hex_value(d[2 * i]) * 16 + hex_value(d[2 * i + 1])) as u8)
}

/// Lower-case hex of bytes, two digits per byte, most significant first.
pub open spec fn hex_lower(b: Seq<u8>) -> Seq<char> {
    Seq::new(
        2 * b.len(),
        |i: int|
            if i % 2 == 0 {
                hex_char(b[i / 2] as int / 16)
            } else {
                hex_char(b[i / 2] as int % 16)
            },
    )
}

/// The canonical text of an address.
pub open spec fn h160_text(b: Seq<u8>) -> Seq<char> {
    seq!['0', 'x'] + hex_lower(b)
}

/// The message with which the address parser rejects a text.
pub uninterp spec fn h160_parse_error(s: Seq<char>) -> Seq<char>;

/// Parses an address with `FromStr` of `ic_web3_rs::types::H160`.
/// Trusted: it strips one leading `0x`, skips spaces, tabs and line breaks,
/// and accepts exactly 40 hex digits of either case, read in pairs into the
/// bytes; anything else is rejected with the parser's message, named here.
#[verifier::external_body]
fn parse_h160(input: &str) -> (res: Result<[u8; 20], String>)
    ensures
        match res {
            Ok(b) => is_h160_text(input@) && b@ == h160_bytes(input@),
            Err(msg) => !is_h160_text(input@) && msg@ == h160_parse_error(input@),
        },
{
    match ic_web3_rs::types::H160::from_str(input) {
        Ok(h) => Ok(h.0),
        Err(e) => Err(e.to_string()),
    }
}

/// Encodes bytes with `hex::encode`.
/// Trusted: two lower-case hex digits per byte, most significant first.
#[verifier::external_body]
fn hex_encode(data: &[u8]) -> (res: String)
    ensures
        res@ == hex_lower(data@),
{
    hex::encode(data)
}

/// The canonical text of an address: `0x` and 40 lower-case hex digits.
pub fn from_h160(h160: &H160) -> (res: String)
    ensures
        res@ == h160_text(h160.0@),
        res@.len() == 42 && res@[0] == '0' && res@[1] == 'x',
        forall|i: int| 2 <= i < 42 ==> is_lower_hex_char(#[trigger] res@[i]),
{
    proof {
        canonical_text_layout(h160.0@);
    }
    let digits = hex_encode(&h160.0);
    let prefix: String = "0x".to_owned();
    proof {
        reveal_strlit("0x");
    }
    prefix.concat(digits.as_str())
}

/// Parses an address text.
pub fn to_h160(address: &str) -> (res: Result<H160, UtilsError>)
    ensures
        match res {
            Ok(h) => is_h160_text(address@) && h.0@ == h160_bytes(address@),
            Err(e) => !is_h160_text(address@) && (e matches UtilsError::InvalidAddressFormat(msg)
                && msg@ == h160_parse_error(address@)),
        },
{
    match parse_h160(address) {
        Ok(bytes) => Ok(H160(bytes)),
        Err(msg) => Err(UtilsError::InvalidAddressFormat(msg)),
    }
}

/// Brings an address text into its canonical form.
pub fn normalize(address: &str) -> (res: Result<String, UtilsError>)
    ensures
        match res {
            Ok(s) => is_h160_text(address@) && s@ == h160_text(h160_bytes(address@)),
            Err(e) => !is_h160_text(address@) && (e matches UtilsError::InvalidAddressFormat(msg)
                && msg@ == h160_parse_error(address@)),
        },
        res matches Ok(s) ==> s@.len() == 42 && s@[0] == '0' && s@[1] == 'x' && forall|i: int|
            2 <= i < 42 ==> is_lower_hex_char(#[trigger] s@[i]),
{
    let h160 = to_h160(address)?;
    Ok(from_h160(&h160))
}

} // verus!

verus! {

/// A text made only of hex digits has all of them as its digits.
proof fn lemma_hex_digits_of_digits(t: Seq<char>)
    requires
        forall|i: int| 0 <= i < t.len() ==> is_hex_digit(#[trigger] t[i]),
    ensures
        hex_digits(t) == t,
    decreases t.len(),
{
    if t.len() > 0 {
        lemma_hex_digits_of_digits(t.drop_last());
        assert(hex_digits(t.drop_last()).push(t.last()) =~= t);
    }
}

/// The digit written for a value below 16 is a hex digit of that value.
proof fn lemma_hex_char(n: int)
    requires
        0 <= n < 16,
    ensures
        is_hex_digit(hex_char(n)),
        hex_value(hex_char(n)) == n,
{
}

/// The canonical text of 20 bytes is an address text, and it stands for those
/// bytes.
pub proof fn canonical_text_round_trip(b: Seq<u8>)
    requires
        b.len() == 20,
    ensures
        is_h160_text(h160_text(b)),
        h160_bytes(h160_text(b)) == b,
{
    let s = h160_text(b);
    let t = hex_lower(b);
    assert(strip_0x(s) =~= t);
    assert forall|i: int| 0 <= i < t.len() implies is_hex_digit(#[trigger] t[i]) by {
        if i % 2 == 0 {
            lemma_hex_char(b[i / 2] as int / 16);
        } else {
            lemma_hex_char(b[i / 2] as int % 16);
        }
    }
    lemma_hex_digits_of_digits(t);
    assert forall|i: int| 0 <= i < 20 implies #[trigger] h160_bytes(s)[i] == b[i] by {
        lemma_hex_char(b[i] as int / 16);
        lemma_hex_char(b[i] as int % 16);
        assert(t[2 * i] == hex_char(b[i] as int / 16));
        assert(t[2 * i + 1] == hex_char(b[i] as int % 16));
    }
    assert(h160_bytes(s) =~= b);
}

/// Whether a character is a lower-case hex digit.
pub open spec fn is_lower_hex_char(c: char) -> bool {
    ('0' <= c && c <= '9') || ('a' <= c && c <= 'f')
}

/// The value of a lower-case hex digit.
pub open spec fn lower_hex_value(c: char) -> int {
    if c <= '9' {
        c as int - '0' as int
    } else {
        c as int - 'a' as int + 10
    }
}

/// The canonical text of an address is 42 characters long: `0` and `x`,
/// then two lower-case hex digits for each byte in order, the high nibble
/// first.
pub proof fn canonical_text_layout(b: Seq<u8>)
    requires
        b.len() == 20,
    ensures
        h160_text(b).len() == 42,
        h160_text(b)[0] == '0',
        h160_text(b)[1] == 'x',
        forall|i: int| 2 <= i < 42 ==> is_lower_hex_char(#[trigger] h160_text(b)[i]),
        forall|k: int|
            0 <= k < 20 ==> #[trigger] b[k] as int == 16 * lower_hex_value(h160_text(b)[2 + 2 * k])
                + lower_hex_value(h160_text(b)[3 + 2 * k]),
{
    let s = h160_text(b);
    let t = hex_lower(b);
    assert(s.len() == 42);
    assert forall|i: int| 2 <= i < 42 implies is_lower_hex_char(#[trigger] s[i]) by {
        assert(s[i] == t[i - 2]);
    }
    assert forall|k: int| 0 <= k < 20 implies #[trigger] b[k] as int == 16 * lower_hex_value(s[2 + 2 * k])
        + lower_hex_value(s[3 + 2 * k]) by {
        assert(s[2 + 2 * k] == t[2 * k]);
        assert(s[3 + 2 * k] == t[2 * k + 1]);
        assert(t[2 * k] == hex_char(b[k] as int / 16));
        assert(t[2 * k + 1] == hex_char(b[k] as int % 16));
    }
}

/// A lower-case hex digit is written back as itself from its value.
proof fn lemma_lower_hex_char(c: char)
    requires
        is_lower_hex_char(c),
    ensures
        is_hex_digit(c),
        hex_value(c) == lower_hex_value(c),
        0 <= hex_value(c) < 16,
        hex_char(hex_value(c)) == c,
{
}

/// A text that is already canonical (`0x` and 40 lower-case hex digits) is an
/// address, and normalises to itself.
pub proof fn canonical_text_is_fixed(s: Seq<char>)
    requires
        s.len() == 42,
        s[0] == '0',
        s[1] == 'x',
        forall|i: int| 2 <= i < 42 ==> is_lower_hex_char(#[trigger] s[i]),
    ensures
        is_h160_text(s),
        h160_text(h160_bytes(s)) == s,
{
    let t = strip_0x(s);
    assert(t =~= s.skip(2));
    assert forall|i: int| 0 <= i < t.len() implies is_hex_digit(#[trigger] t[i]) by {
        assert(t[i] == s[i + 2]);
        lemma_lower_hex_char(s[i + 2]);
    }
    lemma_hex_digits_of_digits(t);
    let b = h160_bytes(s);
    let r = h160_text(b);
    assert forall|i: int| 0 <= i < 42 implies r[i] == s[i] by {
        if i >= 2 {
            let k = (i - 2) / 2;
            lemma_lower_hex_char(t[2 * k]);
            lemma_lower_hex_char(t[2 * k + 1]);
            let hi = hex_value(t[2 * k]);
            let lo = hex_value(t[2 * k + 1]);
            assert(b[k] as int == hi * 16 + lo);
            assert((hi * 16 + lo) / 16 == hi && (hi * 16 + lo) % 16 == lo) by (nonlinear_arith)
                requires
                    0 <= hi < 16,
                    0 <= lo < 16,
            ;
            assert(r[i] == hex_lower(b)[i - 2]);
        }
    }
    assert(r =~= s);
}

/// Normalising an address twice gives what normalising it once gives.
pub proof fn normalize_is_idempotent(s: Seq<char>)
    requires
        is_h160_text(s),
    ensures
        is_h160_text(h160_text(h160_bytes(s))),
        h160_text(h160_bytes(h160_text(h160_bytes(s)))) == h160_text(h160_bytes(s)),
{
    canonical_text_round_trip(h160_bytes(s));
}

} // verus!

verus! {

/// Whether two texts differ at most in the case of hex letters.
pub open spec fn same_but_hex_case(a: Seq<char>, b: Seq<char>) -> bool {
    &&& a.len() == b.len()
    &&& forall|i: int|
        0 <= i < a.len() ==> a[i] == b[i] || (is_hex_digit(a[i]) && is_hex_digit(b[i])
            && hex_value(a[i]) == hex_value(b[i]))
}

/// Texts that differ at most in the case of hex letters have their digits in
/// the same places, with the same values.
proof fn lemma_hex_digits_same_but_case(a: Seq<char>, b: Seq<char>)
    requires
        same_but_hex_case(a, b),
    ensures
        hex_digits(a).len() == hex_digits(b).len(),
        forall|j: int|
            0 <= j < hex_digits(a).len() ==> hex_value(#[trigger] hex_digits(a)[j]) == hex_value(
                hex_digits(b)[j],
            ),
    decreases a.len(),
{
    if a.len() > 0 {
        let ia = a.drop_last();
        let ib = b.drop_last();
        assert(same_but_hex_case(ia, ib)) by {
            assert forall|i: int| 0 <= i < ia.len() implies ia[i] == ib[i] || (is_hex_digit(ia[i])
                && is_hex_digit(ib[i]) && hex_value(ia[i]) == hex_value(ib[i])) by {
                assert(ia[i] == a[i] && ib[i] == b[i]);
            }
        }
        lemma_hex_digits_same_but_case(ia, ib);
        assert(a.last() == a[a.len() - 1] && b.last() == b[b.len() - 1]);
    }
}

/// The case of the hex letters of an address does not matter: a text that
/// differs from an address text at most in that case is an address text too,
/// and stands for the same bytes, so both normalise to the same text.
pub proof fn normalize_ignores_letter_case(a: Seq<char>, b: Seq<char>)
    requires
        same_but_hex_case(a, b),
    ensures
        is_h160_text(a) <==> is_h160_text(b),
        is_h160_text(a) ==> h160_bytes(a) == h160_bytes(b),
{
    let ta = strip_0x(a);
    let tb = strip_0x(b);
    if a.len() >= 2 {
        assert(a[0] == '0' <==> b[0] == '0') by {
            if a[0] != b[0] {
                assert(is_hex_digit(a[0]) && is_hex_digit(b[0]) && hex_value(a[0]) == hex_value(b[0]));
            }
        }
        assert(a[1] == 'x' <==> b[1] == 'x');
    }
    assert(same_but_hex_case(ta, tb)) by {
        assert forall|i: int| 0 <= i < ta.len() implies ta[i] == tb[i] || (is_hex_digit(ta[i])
            && is_hex_digit(tb[i]) && hex_value(ta[i]) == hex_value(tb[i])) by {
            if a.len() >= 2 && a[0] == '0' && a[1] == 'x' {
                assert(ta[i] == a[i + 2] && tb[i] == b[i + 2]);
            } else {
                assert(ta[i] == a[i] && tb[i] == b[i]);
            }
        }
    }
    lemma_hex_digits_same_but_case(ta, tb);
    assert((forall|i: int| 0 <= i < ta.len() ==> is_hex_digit(#[trigger] ta[i]) || is_skipped_space(ta[i]))
        <==> (forall|i: int| 0 <= i < tb.len() ==> is_hex_digit(#[trigger] tb[i]) || is_skipped_space(tb[i]))) by {
        assert forall|i: int| 0 <= i < ta.len() implies (is_hex_digit(ta[i]) || is_skipped_space(ta[i]))
            == (is_hex_digit(tb[i]) || is_skipped_space(tb[i])) by {
        }
    }
    if is_h160_text(a) {
        let da = hex_digits(ta);
        let db = hex_digits(tb);
        assert forall|i: int| 0 <= i < 20 implies #[trigger] h160_bytes(a)[i] == h160_bytes(b)[i] by {
            assert(hex_value(da[2 * i]) == hex_value(db[2 * i]));
            assert(hex_value(da[2 * i + 1]) == hex_value(db[2 * i + 1]));
        }
        assert(h160_bytes(a) =~= h160_bytes(b));
    }
}

} // verus!
