//! Arbitrary-precision natural numbers and 256-bit numbers, and the
//! conversions between them and machine integers.

use vstd::prelude::*;

verus! {

/// An arbitrary-precision natural number, as its base-2^32 digits, least
/// significant first.
#[derive(Debug, Clone, PartialEq, Eq)]
pub struct Nat {
    pub digits: Vec<u32>,
}

/// A 256-bit number, as its four base-2^64 limbs, least significant first.
#[derive(Debug, Clone, Copy, PartialEq, Eq)]
pub struct U256(pub [u64; 4]);

/// The number that base-2^32 digits stand for, least significant first.
pub open spec fn value32(d: Seq<u32>) -> nat
    decreases d.len(),
{
    if d.len() == 0 {
        0
    } else {
        (d[0] + 0x1_0000_0000 * value32(d.skip(1))) as nat
    }
}

/// The number that base-2^64 digits stand for, least significant first.
pub open spec fn value64(d: Seq<u64>) -> nat
    decreases d.len(),
{
    if d.len() == 0 {
        0
    } else {
        (d[0] + 0x1_0000_0000_0000_0000 * value64(d.skip(1))) as nat
    }
}

/// The number that bytes stand for, most significant first.
pub open spec fn value_be(b: Seq<u8>) -> nat
    decreases b.len(),
{
    if b.len() == 0 {
        0
    } else {
        (value_be(b.drop_last()) * 256 + b.last()) as nat
    }
}

/// Digits without a zero at the most significant end.
pub open spec fn normalized32(d: Seq<u32>) -> bool {
    d.len() == 0 || d.last() != 0
}

/// Digits without a zero at the most significant end.
pub open spec fn normalized64(d: Seq<u64>) -> bool {
    d.len() == 0 || d.last() != 0
}

/// The most significant base-2^32 digit of a number (0 for 0).
pub open spec fn top_digit32(v: nat) -> nat
    decreases v,
{
    if v < 0x1_0000_0000 {
        v
    } else {
        top_digit32(v / 0x1_0000_0000)
    }
}

/// The most significant base-2^64 digit of a number (0 for 0).
pub open spec fn top_digit64(v: nat) -> nat
    decreases v,
{
    if v < 0x1_0000_0000_0000_0000 {
        v
    } else {
        top_digit64(v / 0x1_0000_0000_0000_0000)
    }
}

impl Nat {
    /// The number this stands for.
    pub open spec fn value(&self) -> nat {
        value32(self.digits@)
    }
}

impl U256 {
    /// The number this stands for.
    pub open spec fn value(&self) -> nat {
        value64(self.0@)
    }
}

} // verus!

verus! {

proof fn lemma_div_digit(d0: int, r: int, b: int)
    requires
        0 <= d0 < b,
        0 <= r,
    ensures
        (d0 + b * r) / b == r,
{
    assert((d0 + b * r) / b == r) by (nonlinear_arith)
        requires
            0 <= d0 < b,
            0 <= r,
    ;
}

proof fn lemma_value64_positive(d: Seq<u64>)
    requires
        d.len() > 0,
        normalized64(d),
    ensures
        value64(d) >= 1,
    decreases d.len(),
{
    if d.len() > 1 {
        let rest = d.skip(1);
        assert(rest.last() == d.last());
        lemma_value64_positive(rest);
    }
}

proof fn lemma_value32_positive(d: Seq<u32>)
    requires
        d.len() > 0,
        normalized32(d),
    ensures
        value32(d) >= 1,
    decreases d.len(),
{
    if d.len() > 1 {
        let rest = d.skip(1);
        assert(rest.last() == d.last());
        lemma_value32_positive(rest);
    }
}

/// The most significant digit of normalised digits is the top digit of their number.
proof fn lemma_top_digit64(d: Seq<u64>)
    requires
        normalized64(d),
    ensures
        top_digit64(value64(d)) == (if d.len() == 0 { 0 } else { d.last() as nat }),
    decreases d.len(),
{
    if d.len() == 1 {
        assert(value64(d.skip(1)) == 0);
    } else if d.len() > 1 {
        let rest = d.skip(1);
        assert(rest.last() == d.last());
        lemma_top_digit64(rest);
        lemma_value64_positive(rest);
        lemma_div_digit(d[0] as int, value64(rest) as int, 0x1_0000_0000_0000_0000);
    }
}

/// The most significant digit of normalised digits is the top digit of their number.
proof fn lemma_top_digit32(d: Seq<u32>)
    requires
        normalized32(d),
    ensures
        top_digit32(value32(d)) == (if d.len() == 0 { 0 } else { d.last() as nat }),
    decreases d.len(),
{
    if d.len() == 1 {
        assert(value32(d.skip(1)) == 0);
    } else if d.len() > 1 {
        let rest = d.skip(1);
        assert(rest.last() == d.last());
        lemma_top_digit32(rest);
        lemma_value32_positive(rest);
        lemma_div_digit(d[0] as int, value32(rest) as int, 0x1_0000_0000);
    }
}

} // verus!

verus! {

/// 256 to the power `n`.
pub open spec fn pow256(n: nat) -> nat
    decreases n,
{
    if n == 0 {
        1
    } else {
        256 * pow256((n - 1) as nat)
    }
}

/// 2^256, one more than the largest 256-bit number.
pub open spec fn u256_limit() -> nat {
    0x1_0000_0000_0000_0000_0000_0000_0000_0000_0000_0000_0000_0000_0000_0000_0000_0000nat
}

/// The eight bytes of a 64-bit number, most significant first.
pub open spec fn be8(x: u64) -> Seq<u8> {
    seq![
        (x >> 56u64) as u8,
        (x >> 48u64) as u8,
        (x >> 40u64) as u8,
        (x >> 32u64) as u8,
        (x >> 24u64) as u8,
        (x >> 16u64) as u8,
        (x >> 8u64) as u8,
        x as u8,
    ]
}

proof fn lemma_pow256_32()
    ensures
        pow256(32) == u256_limit(),
        pow256(8) == 0x1_0000_0000_0000_0000,
{
    reveal_with_fuel(pow256, 33);
}

proof fn lemma_pow256_grows(n: nat, m: nat)
    requires
        n <= m,
    ensures
        pow256(n) <= pow256(m),
    decreases m,
{
    if n < m {
        lemma_pow256_grows(n, (m - 1) as nat);
    }
}

/// Bytes are worth at least their first byte in its place.
proof fn lemma_value_be_first(b: Seq<u8>)
    requires
        b.len() >= 1,
    ensures
        value_be(b) >= b[0] * pow256((b.len() - 1) as nat),
    decreases b.len(),
{
    if b.len() == 1 {
        assert(b.drop_last() =~= Seq::<u8>::empty());
        assert(value_be(b.drop_last()) == 0);
        assert(value_be(b) == b[0]);
        assert(pow256(0) == 1);
    } else {
        let init = b.drop_last();
        assert(value_be(b) == value_be(init) * 256 + b.last());
        lemma_value_be_first(init);
        assert(init[0] == b[0]);
        let v = value_be(init);
        let p = pow256((init.len() - 1) as nat);
        assert(pow256((b.len() - 1) as nat) == 256 * p);
        assert(v * 256 >= b[0] * (256 * p)) by (nonlinear_arith)
            requires
                v >= b[0] * p,
        ;
    }
}

/// Bytes without a leading zero that stand for a 256-bit number are at most 32.
proof fn lemma_short_bytes(b: Seq<u8>)
    requires
        b.len() >= 1,
        b.len() > 1 ==> b[0] != 0,
        value_be(b) < u256_limit(),
    ensures
        b.len() <= 32,
{
    if b.len() > 32 {
        lemma_value_be_first(b);
        lemma_pow256_32();
        lemma_pow256_grows(32, (b.len() - 1) as nat);
        let p = pow256((b.len() - 1) as nat);
        assert(b[0] * p >= p) by (nonlinear_arith)
            requires
                b[0] >= 1,
                p >= 0,
        ;
    }
}

/// The value of bytes placed after others.
proof fn lemma_value_be_concat(a: Seq<u8>, b: Seq<u8>)
    ensures
        value_be(a + b) == value_be(a) * pow256(b.len()) + value_be(b),
    decreases b.len(),
{
    if b.len() == 0 {
        assert(a + b =~= a);
        assert(value_be(b) == 0);
        assert(pow256(0) == 1);
    } else {
        let b0 = b.drop_last();
        lemma_value_be_concat(a, b0);
        assert((a + b).drop_last() =~= a + b0);
        let va = value_be(a);
        let p = pow256(b0.len());
        assert((a + b).last() == b.last());
        assert(value_be(a + b) == value_be(a + b0) * 256 + b.last());
        assert(value_be(b) == value_be(b0) * 256 + b.last());
        assert(pow256(b.len()) == 256 * p);
        assert((va * p + value_be(b0)) * 256 == va * (256 * p) + value_be(b0) * 256)
            by (nonlinear_arith);
    }
}

/// The eight bytes of a 64-bit number stand for it.
proof fn lemma_value_be8(x: u64)
    ensures
        value_be(be8(x)) == x,
{
    let b = be8(x);
    reveal_with_fuel(value_be, 9);
    assert(b.drop_last().drop_last().drop_last().drop_last().drop_last().drop_last().drop_last().drop_last() =~= Seq::<u8>::empty());
    assert(value_be(b) == ((((((((x >> 56u64) as u8) as int * 256 + ((x >> 48u64) as u8) as int) * 256
        + ((x >> 40u64) as u8) as int) * 256 + ((x >> 32u64) as u8) as int) * 256 + ((x >> 24u64) as u8) as int)
        * 256 + ((x >> 16u64) as u8) as int) * 256 + ((x >> 8u64) as u8) as int) * 256 + (x as u8) as int);
    assert(((((((((x >> 56u64) as u8) as int * 256 + ((x >> 48u64) as u8) as int) * 256
        + ((x >> 40u64) as u8) as int) * 256 + ((x >> 32u64) as u8) as int) * 256 + ((x >> 24u64) as u8) as int)
        * 256 + ((x >> 16u64) as u8) as int) * 256 + ((x >> 8u64) as u8) as int) * 256 + (x as u8) as int == x)
        by (bit_vector);
}

} // verus!

verus! {

/// The base-2^64 digits of a number given by base-2^32 digits, through
/// `num_bigint::BigUint::to_u64_digits`.
/// Trusted: the digits stand for the same number, least significant first,
/// with no zero at the most significant end.
#[verifier::external_body]
fn u64_digits(digits: &[u32]) -> (res: Vec<u64>)
    ensures
        value64(res@) == value32(digits@),
        normalized64(res@),
{
    num_bigint::BigUint::new(digits.to_vec()).to_u64_digits()
}

/// The base-2^32 digits of a number, through `num_bigint::BigUint::to_u32_digits`.
/// Trusted: the digits stand for the same number, least significant first,
/// with no zero at the most significant end.
#[verifier::external_body]
fn u32_digits(digits: &[u32]) -> (res: Vec<u32>)
    ensures
        value32(res@) == value32(digits@),
        normalized32(res@),
{
    num_bigint::BigUint::new(digits.to_vec()).to_u32_digits()
}

/// The bytes of a number, through `num_bigint::BigUint::to_bytes_be`.
/// Trusted: the bytes stand for the number, most significant first; there is
/// at least one, and no leading zero unless the number is 0 (then `[0]`).
#[verifier::external_body]
fn bytes_be(digits: &[u32]) -> (res: Vec<u8>)
    ensures
        value_be(res@) == value32(digits@),
        res@.len() >= 1,
        res@.len() > 1 ==> res@[0] != 0,
{
    num_bigint::BigUint::new(digits.to_vec()).to_bytes_be()
}

/// The number that bytes stand for, through `num_bigint::BigUint::from_bytes_be`.
/// Trusted: the digits stand for the bytes' number (most significant byte
/// first), least significant digit first, with no zero at the most
/// significant end.
#[verifier::external_body]
fn digits_from_bytes_be(bytes: &[u8]) -> (res: Vec<u32>)
    ensures
        value32(res@) == value_be(bytes@),
        normalized32(res@),
{
    num_bigint::BigUint::from_bytes_be(bytes).to_u32_digits()
}

/// A 256-bit number from at most 32 bytes, through
/// `ic_web3_rs::types::U256::from_big_endian`.
/// Trusted: the limbs stand for the bytes' number (most significant byte
/// first). It panics on more than 32 bytes, which the precondition excludes.
#[verifier::external_body]
fn u256_from_big_endian(bytes: &[u8]) -> (res: [u64; 4])
    requires
        bytes@.len() <= 32,
    ensures
        value64(res@) == value_be(bytes@),
{
    ic_web3_rs::types::U256::from_big_endian(bytes).0
}

/// Conversions of a natural number to machine numbers.
pub trait ToNativeTypes {
    /// The number that the value stands for.
    spec fn number(&self) -> nat;

    /// The most significant base-2^64 digit of the number (0 for 0). This is
    /// the number itself when it fits in 64 bits.
    fn to_u64(&self) -> (res: u64)
        ensures
            res == top_digit64(self.number()),
    ;

    /// The most significant base-2^32 digit of the number (0 for 0). This is
    /// the number itself when it fits in 32 bits.
    fn to_u32(&self) -> (res: u32)
        ensures
            res == top_digit32(self.number()),
    ;

    /// The number as a 256-bit number.
    fn to_u256(&self) -> (res: U256)
        requires
            self.number() < u256_limit(),
        ensures
            res.value() == self.number(),
    ;
}

impl ToNativeTypes for Nat {
    open spec fn number(&self) -> nat {
        self.value()
    }

    fn to_u64(&self) -> (res: u64) {
        let nat_digits = u64_digits(self.digits.as_slice());
        let mut number: u64 = 0;
        if nat_digits.len() > 0 {
            number = nat_digits[nat_digits.len() - 1];
        }
        proof {
            lemma_top_digit64(nat_digits@);
        }
        number
    }

    fn to_u32(&self) -> (res: u32) {
        let nat_digits = u32_digits(self.digits.as_slice());
        let mut number: u32 = 0;
        if nat_digits.len() > 0 {
            number = nat_digits[nat_digits.len() - 1];
        }
        proof {
            lemma_top_digit32(nat_digits@);
        }
        number
    }

    fn to_u256(&self) -> (res: U256) {
        let bytes = bytes_be(self.digits.as_slice());
        proof {
            lemma_short_bytes(bytes@);
        }
        U256(u256_from_big_endian(bytes.as_slice()))
    }
}

/// Appends the eight bytes of `x`, most significant first.
fn push_be8(buf: &mut Vec<u8>, x: u64)
    ensures
        final(buf)@ == old(buf)@ + be8(x),
{
    buf.push((x >> 56u64) as u8);
    buf.push((x >> 48u64) as u8);
    buf.push((x >> 40u64) as u8);
    buf.push((x >> 32u64) as u8);
    buf.push((x >> 24u64) as u8);
    buf.push((x >> 16u64) as u8);
    buf.push((x >> 8u64) as u8);
    buf.push(x as u8);
    proof {
        assert(final(buf)@ =~= old(buf)@ + be8(x));
    }
}

/// Conversion of a 256-bit number to a natural number.
pub trait ToNatType {
    /// The number that the value stands for.
    spec fn number(&self) -> nat;

    /// The same number as a natural number, in normalised digits (no zero at
    /// the most significant end).
    fn to_nat(&self) -> (res: Nat)
        ensures
            res.value() == self.number(),
            normalized32(res.digits@),
    ;
}

impl ToNatType for U256 {
    open spec fn number(&self) -> nat {
        self.value()
    }

    fn to_nat(&self) -> (res: Nat) {
        let mut buf: Vec<u8> = Vec::with_capacity(32);
        push_be8(&mut buf, self.0[3]);
        push_be8(&mut buf, self.0[2]);
        push_be8(&mut buf, self.0[1]);
        push_be8(&mut buf, self.0[0]);
        proof {
            lemma_u256_bytes_value(self.0@);
            assert(buf@ =~= be8(self.0@[3]) + be8(self.0@[2]) + be8(self.0@[1]) + be8(self.0@[0]));
        }
        Nat { digits: digits_from_bytes_be(buf.as_slice()) }
    }
}

/// The 32 bytes of four limbs, most significant limb first, stand for the
/// limbs' number.
proof fn lemma_u256_bytes_value(l: Seq<u64>)
    requires
        l.len() == 4,
    ensures
        value_be(be8(l[3]) + be8(l[2]) + be8(l[1]) + be8(l[0])) == value64(l),
{
    let b3 = be8(l[3]);
    let b2 = be8(l[2]);
    let b1 = be8(l[1]);
    let b0 = be8(l[0]);
    lemma_value_be8(l[3]);
    lemma_value_be8(l[2]);
    lemma_value_be8(l[1]);
    lemma_value_be8(l[0]);
    lemma_pow256_32();
    lemma_value_be_concat(b3, b2);
    lemma_value_be_concat(b3 + b2, b1);
    lemma_value_be_concat(b3 + b2 + b1, b0);
    reveal_with_fuel(value64, 5);
    assert(l.skip(1).skip(1).skip(1).skip(1) =~= Seq::<u64>::empty());
    assert(l.skip(1)[0] == l[1]);
    assert(l.skip(1).skip(1)[0] == l[2]);
    assert(l.skip(1).skip(1).skip(1)[0] == l[3]);
    let big: int = 0x1_0000_0000_0000_0000;
    assert(value64(l.skip(1).skip(1).skip(1)) == l[3] as int);
    assert(value64(l.skip(1).skip(1)) == l[2] + big * l[3]);
    assert(value64(l.skip(1)) == l[1] + big * (l[2] + big * l[3]));
    assert(value64(l) == l[0] + big * (l[1] + big * (l[2] + big * l[3])));
    assert(value_be(b3 + b2) == l[3] * big + l[2]);
    assert(value_be(b3 + b2 + b1) == (l[3] * big + l[2]) * big + l[1]);
    assert(value_be(b3 + b2 + b1 + b0) == ((l[3] * big + l[2]) * big + l[1]) * big + l[0]);
    assert(((l[3] * big + l[2]) * big + l[1]) * big + l[0] == l[0] + big * (l[1] + big * (l[2]
        + big * l[3]))) by (nonlinear_arith);
}

} // verus!

verus! {

/// Normalised base-2^32 digits are fixed by their number.
proof fn lemma_normalized32_unique(a: Seq<u32>, b: Seq<u32>)
    requires
        normalized32(a),
        normalized32(b),
        value32(a) == value32(b),
    ensures
        a == b,
    decreases a.len(),
{
    if a.len() > 0 {
        lemma_value32_positive(a);
    }
    if b.len() > 0 {
        lemma_value32_positive(b);
    }
    if a.len() > 0 && b.len() > 0 {
        let ra = a.skip(1);
        let rb = b.skip(1);
        assert(ra.len() > 0 ==> ra.last() == a.last());
        assert(rb.len() > 0 ==> rb.last() == b.last());
        lemma_digit_split(a[0] as int, value32(ra) as int, b[0] as int, value32(rb) as int, 0x1_0000_0000);
        lemma_normalized32_unique(ra, rb);
        assert(a =~= seq![a[0]] + ra);
        assert(b =~= seq![b[0]] + rb);
    }
}

/// Four base-2^64 limbs are fixed by their number.
proof fn lemma_limbs_unique(a: Seq<u64>, b: Seq<u64>)
    requires
        a.len() == b.len(),
        value64(a) == value64(b),
    ensures
        a == b,
    decreases a.len(),
{
    if a.len() > 0 {
        let ra = a.skip(1);
        let rb = b.skip(1);
        lemma_digit_split(a[0] as int, value64(ra) as int, b[0] as int, value64(rb) as int, 0x1_0000_0000_0000_0000);
        lemma_limbs_unique(ra, rb);
        assert(a =~= seq![a[0]] + ra);
        assert(b =~= seq![b[0]] + rb);
    } else {
        assert(a =~= b);
    }
}

/// A number written as a digit plus a multiple of the base has one such form.
proof fn lemma_digit_split(d: int, r: int, e: int, s: int, base: int)
    requires
        0 <= d < base,
        0 <= e < base,
        0 <= r,
        0 <= s,
        d + base * r == e + base * s,
    ensures
        d == e,
        r == s,
{
    lemma_div_digit(d, r, base);
    lemma_div_digit(e, s, base);
    assert(d == (d + base * r) - base * r);
    assert(e == (e + base * s) - base * s);
}

/// Converting a 256-bit number to a natural number and back gives the same
/// 256-bit number.
pub proof fn u256_round_trip(u: U256, n: Nat, back: U256)
    requires
        n.value() == u.value(),
        back.value() == n.value(),
    ensures
        back.0@ == u.0@,
{
    lemma_limbs_unique(back.0@, u.0@);
}

/// Converting a natural number below 2^256 to 256 bits and back gives the
/// same number; its digits come back as they were when they were normalised.
pub proof fn nat_round_trip(n: Nat, u: U256, back: Nat)
    requires
        n.value() < u256_limit(),
        u.value() == n.value(),
        back.value() == u.value(),
        normalized32(back.digits@),
    ensures
        back.value() == n.value(),
        normalized32(n.digits@) ==> back.digits@ == n.digits@,
{
    if normalized32(n.digits@) {
        lemma_normalized32_unique(back.digits@, n.digits@);
    }
}

} // verus!
