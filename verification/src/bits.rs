//! Bit-level helpers shared by the memory unit, the decoder and the
//! execution engine. All bit positions are modelled arithmetically: bit `b`
//! of a word `w` is `(w / 2^b) % 2`, so that the contracts stay in linear
//! arithmetic wherever possible.
use vstd::prelude::*;

verus! {

use vstd::arithmetic::power2::{pow2, lemma_pow2_adds, lemma_pow2_strictly_increases, lemma2_to64};
use vstd::arithmetic::div_mod::lemma_mod_breakdown;

pub type Byte = u8;
pub type HalfWord = u16;
pub type Word = u32;
pub type AddressSize = u32;
pub type Checksum = u32;
pub type SignedWord = i32;

/// Bit `b` of `w`, as 0 or 1.
pub open spec fn bit_get(w: Word, b: nat) -> Word {
    (((w as nat) / pow2(b)) % 2) as Word
}

/// `w` with bit `b` forced to `f`, all other bits unchanged.
pub open spec fn set_bit32(w: Word, b: nat, f: bool) -> Word {
    if f && bit_get(w, b) == 0 {
        (w + pow2(b)) as Word
    } else if !f && bit_get(w, b) == 1 {
        (w - pow2(b)) as Word
    } else {
        w
    }
}

/// Setting a clear bit cannot overflow: the word decomposes around `2^(b+1)`.
pub proof fn lemma_set_bit_fits(w: Word, b: nat)
    requires
        b < 32,
        bit_get(w, b) == 0,
    ensures
        w + pow2(b) < 0x100000000,
{
    let p = pow2(b) as int;
    lemma_pow2_adds(b, (32 - b) as nat);
    lemma2_to64();
    if b < 31 {
        lemma_pow2_strictly_increases(1, (32 - b) as nat);
    }
    let m = pow2((32 - b) as nat) as int;
    assert(m >= 2);
    assert(p * m == 0x100000000);
    let q = (w as int) / p;
    assert(w == p * q + (w as int) % p) by (nonlinear_arith)
        requires p > 0, q == (w as int) / p;
    assert(q % 2 == 0);
    assert(p * q + (w as int) % p < p * m);
    assert(q < m) by (nonlinear_arith)
        requires p > 0, 0 <= (w as int) % p < p, p * q + (w as int) % p < p * m;
    assert(q <= m - 2);
    assert(p * q <= p * (m - 2)) by (nonlinear_arith)
        requires p > 0, q <= m - 2;
    assert(w + p <= p * (m - 2) + p + p - 1);
    assert(p * (m - 2) + 2 * p == p * m) by (nonlinear_arith);
}

/// The unique decomposition of `w` around bit `b`.
pub proof fn lemma_bit_decompose(w: Word, b: nat)
    requires
        b < 32,
    ensures
        w == 2 * (pow2(b) as int) * (w as int / (2 * pow2(b) as int)) + pow2(b) * bit_get(w, b)
            + w as nat % pow2(b),
        bit_get(w, b) == 0 || bit_get(w, b) == 1,
{
    let p = pow2(b) as int;
    vstd::arithmetic::power2::lemma_pow2_pos(b);
    vstd::arithmetic::div_mod::lemma_fundamental_div_mod(w as int, 2 * p);
    vstd::arithmetic::div_mod::lemma_breakdown(w as int, p, 2);
    assert(2 * p * (w as int / (2 * p)) == (p * 2) * (w as int / (p * 2))) by (nonlinear_arith);
}

/// Setting bit `b` makes bit `b` read back as the flag.
pub proof fn lemma_set_bit_get(w: Word, b: nat, f: bool)
    requires
        b < 32,
    ensures
        bit_get(set_bit32(w, b, f), b) == (if f { 1 as Word } else { 0 as Word }),
{
    let p = pow2(b) as int;
    vstd::arithmetic::power2::lemma_pow2_pos(b);
    lemma_bit_decompose(w, b);
    let hi = w as int / (2 * p);
    let lo = w as int % p;
    let fv: int = if f { 1 } else { 0 };
    vstd::arithmetic::div_mod::lemma_mod_division_less_than_divisor(w as int, p);
    assert(hi >= 0) by (nonlinear_arith)
        requires p > 0, w as int >= 0, hi == w as int / (2 * p);
    if f && bit_get(w, b) == 0 {
        lemma_set_bit_fits(w, b);
    }
    let w2 = set_bit32(w, b, f) as int;
    assert(w2 == 2 * p * hi + p * fv + lo);
    assert(w2 == (2 * hi + fv) * p + lo) by (nonlinear_arith)
        requires w2 == 2 * p * hi + p * fv + lo;
    vstd::arithmetic::div_mod::lemma_fundamental_div_mod_converse_div(w2, p, 2 * hi + fv, lo);
    vstd::arithmetic::div_mod::lemma_fundamental_div_mod_converse_mod(2 * hi + fv, 2, hi, fv);
}

/// Setting bit `b` leaves every other bit unchanged.
pub proof fn lemma_set_bit_frame(w: Word, b: nat, f: bool, b2: nat)
    requires
        b < 32,
        b2 < 32,
        b2 != b,
    ensures
        bit_get(set_bit32(w, b, f), b2) == bit_get(w, b2),
{
    let p = pow2(b) as int;
    let p2 = pow2(b2) as int;
    vstd::arithmetic::power2::lemma_pow2_pos(b);
    vstd::arithmetic::power2::lemma_pow2_pos(b2);
    lemma_bit_decompose(w, b);
    let hi = w as int / (2 * p);
    let lo = w as int % p;
    let bitv = bit_get(w, b) as int;
    vstd::arithmetic::div_mod::lemma_mod_division_less_than_divisor(w as int, p);
    assert(hi >= 0) by (nonlinear_arith)
        requires p > 0, w as int >= 0, hi == w as int / (2 * p);
    if (f && bitv == 0) || (!f && bitv == 1) {
        let w2 = set_bit32(w, b, f) as int;
        if f {
            lemma_set_bit_fits(w, b);
            assert(w2 == w + p);
        } else {
            assert(w >= p * 1 + 0);
            assert(w2 == w - p);
        }
        if b2 > b {
            // Both words share the quotient by 2^(b+1), hence every higher bit.
            lemma_pow2_adds((b + 1) as nat, (b2 - b - 1) as nat);
            vstd::arithmetic::power2::lemma_pow2_unfold((b + 1) as nat);
            let kk = pow2((b2 - b - 1) as nat) as int;
            vstd::arithmetic::power2::lemma_pow2_pos((b2 - b - 1) as nat);
            assert(p2 == 2 * p * kk);
            let fv: int = if f { 1 } else { 0 };
            assert(w2 == 2 * p * hi + p * fv + lo);
            assert(0 <= p * fv + lo < 2 * p) by (nonlinear_arith)
                requires 0 <= fv <= 1, 0 <= lo < p;
            assert(0 <= p * bitv + lo < 2 * p) by (nonlinear_arith)
                requires 0 <= bitv <= 1, 0 <= lo < p;
            assert(w2 == hi * (2 * p) + (p * fv + lo)) by (nonlinear_arith)
                requires w2 == 2 * p * hi + p * fv + lo;
            assert(w == hi * (2 * p) + (p * bitv + lo)) by (nonlinear_arith)
                requires w == 2 * p * hi + p * bitv + lo;
            vstd::arithmetic::div_mod::lemma_fundamental_div_mod_converse_div(
                w2, 2 * p, hi, p * fv + lo);
            vstd::arithmetic::div_mod::lemma_fundamental_div_mod_converse_div(
                w as int, 2 * p, hi, p * bitv + lo);
            vstd::arithmetic::div_mod::lemma_div_denominator(w2, 2 * p, kk);
            vstd::arithmetic::div_mod::lemma_div_denominator(w as int, 2 * p, kk);
            assert(w2 / p2 == w2 / (2 * p * kk)) by (nonlinear_arith)
                requires p2 == 2 * p * kk;
            assert(w as int / p2 == w as int / (2 * p * kk)) by (nonlinear_arith)
                requires p2 == 2 * p * kk;
            assert(w2 / p2 == hi / kk && w as int / p2 == hi / kk);
        } else {
            // b2 < b: the change is a multiple of 2^(b2+1).
            lemma_pow2_adds((b2 + 1) as nat, (b - b2 - 1) as nat);
            vstd::arithmetic::power2::lemma_pow2_unfold((b2 + 1) as nat);
            let mm = pow2((b - b2 - 1) as nat) as int;
            vstd::arithmetic::power2::lemma_pow2_pos((b - b2 - 1) as nat);
            assert(p == p2 * (2 * mm)) by (nonlinear_arith)
                requires p == pow2((b2 + 1) as nat) * mm, pow2((b2 + 1) as nat) == 2 * p2;
            let j: int = if f { 2 * mm } else { -(2 * mm) };
            assert(w2 == w + j * p2) by (nonlinear_arith)
                requires p == p2 * (2 * mm),
                    w2 == (if f { w + p } else { w - p }),
                    j == (if f { 2 * mm } else { -(2 * mm) });
            vstd::arithmetic::div_mod::lemma_hoist_over_denominator(w as int, j, p2 as nat);
            assert(w2 / p2 == w as int / p2 + j);
            vstd::arithmetic::div_mod::lemma_mod_multiples_vanish(
                if f { mm } else { -mm }, w as int / p2, 2);
            assert(w as int / p2 + j == 2 * (if f { mm } else { -mm }) + w as int / p2)
                by (nonlinear_arith)
                requires j == (if f { 2 * mm } else { -(2 * mm) });
        }
    }
}


/// Setting a bit at position 5 or above leaves the low five bits unchanged.
pub proof fn lemma_set_bit_mod32(w: Word, b: nat, f: bool)
    requires
        5 <= b < 32,
    ensures
        set_bit32(w, b, f) % 32 == w % 32,
{
    lemma_pow2_adds(5, (b - 5) as nat);
    lemma2_to64();
    let k = pow2((b - 5) as nat) as int;
    assert(pow2(b) == 32 * k);
    if f && bit_get(w, b) == 0 {
        lemma_set_bit_fits(w, b);
        vstd::arithmetic::div_mod::lemma_mod_multiples_vanish(k, w as int, 32);
    } else if !f && bit_get(w, b) == 1 {
        vstd::arithmetic::power2::lemma_pow2_pos(b);
        let p = pow2(b) as int;
        vstd::arithmetic::div_mod::lemma_fundamental_div_mod(w as int, p);
        vstd::arithmetic::div_mod::lemma_mod_division_less_than_divisor(w as int, p);
        assert(w >= p) by (nonlinear_arith)
            requires p > 0, ((w as int) / p) % 2 == 1,
                w as int == p * ((w as int) / p) + (w as int) % p, (w as int) % p >= 0;
        vstd::arithmetic::div_mod::lemma_mod_multiples_vanish(-k, w as int, 32);
    }
}

/// `2^e` as an executable word.
pub fn pow2u32(e: u32) -> (r: u32)
    requires
        e < 32,
    ensures
        r == pow2(e as nat),
        r >= 1,
{
    proof {
        lemma2_to64();
        vstd::arithmetic::power2::lemma_pow2_pos(e as nat);
    }
    let mut r: u32 = 1;
    let mut i: u32 = 0;
    while i < e
        invariant
            i <= e < 32,
            r == pow2(i as nat),
        decreases e - i,
    {
        proof {
            lemma_pow2_strictly_increases(i as nat, 31);
            lemma2_to64();
            vstd::arithmetic::power2::lemma_pow2_unfold((i + 1) as nat);
        }
        r = r * 2;
        i = i + 1;
    }
    r
}

/// Bit `bit` of `w`, as 0 or 1.
pub fn get_bit(w: Word, bit: Word) -> (r: Word)
    requires
        bit <= 31,
    ensures
        r == bit_get(w, bit as nat),
{
    (w / pow2u32(bit)) % 2
}

/// Whether bit `bit` of `w` is set.
pub fn test_bit(w: Word, bit: Word) -> (r: bool)
    requires
        bit <= 31,
    ensures
        r == (bit_get(w, bit as nat) == 1),
{
    get_bit(w, bit) != 0
}

/// Whether the least significant bit of `w` is set.
pub fn word_lsb_to_bool(w: Word) -> (r: bool)
    ensures
        r == (w % 2 == 1),
{
    w % 2 == 1
}

/// The word with bytes `b0 b1 b2 b3`, `b0` most significant.
pub open spec fn word_of_be(b0: Byte, b1: Byte, b2: Byte, b3: Byte) -> Word {
    (b0 * 0x1000000 + b1 * 0x10000 + b2 * 0x100 + b3) as Word
}

/// Most significant byte of `w`.
pub open spec fn wbyte0(w: Word) -> Byte {
    (w / 0x1000000) as Byte
}

pub open spec fn wbyte1(w: Word) -> Byte {
    ((w / 0x10000) % 0x100) as Byte
}

pub open spec fn wbyte2(w: Word) -> Byte {
    ((w / 0x100) % 0x100) as Byte
}

/// Least significant byte of `w`.
pub open spec fn wbyte3(w: Word) -> Byte {
    (w % 0x100) as Byte
}

/// Reassembling the four bytes of a word gives the word back.
pub proof fn lemma_word_bytes_roundtrip(w: Word)
    ensures
        word_of_be(wbyte0(w), wbyte1(w), wbyte2(w), wbyte3(w)) == w,
{
    lemma_mod_breakdown(w as int, 0x100, 0x100);
    lemma_mod_breakdown(w as int, 0x10000, 0x100);
    assert(w == 0x1000000 * (w as int / 0x1000000) + (w as int) % 0x1000000);
}

/// The halfword with bytes `b0 b1`, `b0` most significant.
pub open spec fn half_of_be(b0: Byte, b1: Byte) -> HalfWord {
    (b0 * 0x100 + b1) as HalfWord
}

/// Most significant byte of halfword `h`.
pub open spec fn hbyte0(h: HalfWord) -> Byte {
    (h / 0x100) as Byte
}

/// Least significant byte of halfword `h`.
pub open spec fn hbyte1(h: HalfWord) -> Byte {
    (h % 0x100) as Byte
}

/// Reassembling the two bytes of a halfword gives the halfword back.
pub proof fn lemma_half_bytes_roundtrip(h: HalfWord)
    ensures
        half_of_be(hbyte0(h), hbyte1(h)) == h,
{
}

/// Addition on words, wrapping modulo `2^32`.
pub open spec fn wadd(a: Word, b: Word) -> Word {
    ((a + b) % 0x100000000) as Word
}

/// Subtraction on words, wrapping modulo `2^32`.
pub open spec fn wsub(a: Word, b: Word) -> Word {
    (((a - b) + 0x100000000) % 0x100000000) as Word
}

/// Executable wrapping addition, related to the arithmetic model.
pub fn exec_wadd(a: Word, b: Word) -> (r: Word)
    ensures
        r == wadd(a, b),
{
    a.wrapping_add(b)
}

/// Executable wrapping subtraction, related to the arithmetic model.
pub fn exec_wsub(a: Word, b: Word) -> (r: Word)
    ensures
        r == wsub(a, b),
{
    a.wrapping_sub(b)
}

/// Multiplication on words, truncated modulo `2^32`.
pub open spec fn wmul(a: Word, b: Word) -> Word {
    ((a * b) % 0x100000000) as Word
}

/// Executable wrapping multiplication via a 64-bit intermediate.
pub fn exec_wmul(a: Word, b: Word) -> (r: Word)
    ensures
        r == wmul(a, b),
{
    proof {
        assert((a as int) * (b as int) < 0x100000000 * 0x100000000) by (nonlinear_arith)
            requires 0 <= a < 0x100000000, 0 <= b < 0x100000000;
    }
    let wide: u64 = (a as u64) * (b as u64);
    (wide % 0x100000000) as Word
}

/// Wrapping addition composes: two small steps equal their sum.
pub proof fn lemma_wadd_assoc(a: Word, b: Word, c: Word)
    requires
        b + c < 0x100000000,
    ensures
        wadd(wadd(a, b), c) == wadd(a, (b + c) as Word),
{
    vstd::arithmetic::div_mod::lemma_add_mod_noop(a + b, c as int, 0x100000000);
}

/// Wrapping addition and subtraction of the same amount cancel.
pub proof fn lemma_wadd_wsub_cancel(a: Word, b: Word)
    ensures
        wadd(wsub(a, b), b) == a,
        wsub(wadd(a, b), b) == a,
{
}

/// The signed value represented by `w` in two's complement.
pub open spec fn to_signed(w: Word) -> int {
    if w < 0x80000000 {
        w as int
    } else {
        w - 0x100000000
    }
}

/// Bitwise complement of `w`, stated arithmetically.
pub open spec fn wnot(w: Word) -> Word {
    (0xFFFFFFFFu32 - w) as Word
}

/// Executable complement: `!w` equals `0xFFFFFFFF - w`.
pub fn exec_wnot(w: Word) -> (r: Word)
    ensures
        r == wnot(w),
{
    0xFFFFFFFFu32 - w
}

} // verus!
