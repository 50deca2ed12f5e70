//! Binary64 values, and the conversions between them and texts that are left
//! to the caller.
//!
//! A binary64 value is held as its IEEE 754 bit pattern in a `u64`.  The
//! library compares such patterns, cuts them off to integers, rounds
//! integers to them and computes with them.  Parsing and printing are
//! described by a [`FloatOp`], carried out by the caller, and turned into a
//! cell by [`FloatOp::settle`].

use vstd::arithmetic::power2::{lemma2_to64, lemma2_to64_rest, lemma_pow2_adds, lemma_pow2_pos};
use vstd::arithmetic::power2::{lemma_pow2_strictly_increases, lemma_pow2_unfold, pow2};
use vstd::bits::{lemma_u64_shl_is_mul, lemma_u64_shr_is_div};
use vstd::prelude::*;
use crate::cell::{CellValue, DCell};

verus! {

/// The bit pattern of the binary64 value one.
pub const FLOAT_ONE: u64 = 0x3FF0_0000_0000_0000;

/// The bit pattern of the binary64 value positive zero.
pub const FLOAT_ZERO: u64 = 0;

/// The bits of a binary64 value without its sign.
pub const FLOAT_MAGNITUDE: u64 = 0x7FFF_FFFF_FFFF_FFFF;

/// The sign bit of a binary64 value.
pub const FLOAT_SIGN: u64 = 0x8000_0000_0000_0000;

/// The magnitude of the binary64 infinities; a larger magnitude is a NaN.
pub const FLOAT_INFINITY: u64 = 0x7FF0_0000_0000_0000;

/// Whether the binary64 value with these bits differs from zero.  Both zeros
/// have an empty magnitude; every other pattern, a NaN too, differs from zero.
pub open spec fn float_nonzero(bits: u64) -> bool {
    bits & FLOAT_MAGNITUDE != 0
}

/// Whether these bits are a NaN.
pub open spec fn float_is_nan(bits: u64) -> bool {
    bits & FLOAT_MAGNITUDE > FLOAT_INFINITY
}

/// The place of a binary64 value among the integers: its magnitude bits,
/// counted below zero for a negative value.  Of two values that are no NaN,
/// the smaller has the smaller place, and both zeros have the place zero.
pub open spec fn float_key(bits: u64) -> int {
    if bits & FLOAT_SIGN != 0 {
        -((bits & FLOAT_MAGNITUDE) as int)
    } else {
        (bits & FLOAT_MAGNITUDE) as int
    }
}

/// The exponent field of a binary64 value: the true exponent plus 1023.
pub open spec fn float_exponent(bits: u64) -> int {
    ((bits >> 52) & 0x7FF) as int
}

/// Whether the value is negative: whether its sign bit is set.
pub open spec fn float_negative(bits: u64) -> bool {
    bits & FLOAT_SIGN != 0
}

/// The magnitude bits of a value.
pub open spec fn float_magnitude(bits: u64) -> u64 {
    bits & FLOAT_MAGNITUDE
}

/// The digits of a finite value: its fraction field, under a leading one
/// where the exponent field is not zero.
pub open spec fn float_digits(bits: u64) -> nat {
    if float_exponent(bits) == 0 {
        (bits & 0xF_FFFF_FFFF_FFFF) as nat
    } else {
        ((bits & 0xF_FFFF_FFFF_FFFF) + 0x10_0000_0000_0000) as nat
    }
}

/// The scale of a finite value: the power of two that its digits are
/// multiplied by.
pub open spec fn float_scale(bits: u64) -> int {
    if float_exponent(bits) == 0 {
        -1074
    } else {
        float_exponent(bits) - 1075
    }
}

/// The whole part of the magnitude of a finite value: its digits times two
/// to the power of its scale, what comes after the point cut off.
pub open spec fn float_whole(bits: u64) -> int {
    if float_scale(bits) >= 0 {
        (float_digits(bits) * pow2(float_scale(bits) as nat)) as int
    } else {
        float_digits(bits) as int / (pow2((-float_scale(bits)) as nat) as int)
    }
}

/// A binary64 value cut off toward zero to a signed integer: zero for a NaN,
/// the nearest end of the range for a value beyond it (one whose exponent
/// field is 1086 or more, so that its magnitude is two to the power of 63 at
/// least), and else its whole part with its sign.
pub open spec fn float_truncated(bits: u64) -> i64 {
    if float_is_nan(bits) {
        0
    } else if float_exponent(bits) >= 1086 {
        if bits & FLOAT_SIGN != 0 {
            i64::MIN
        } else {
            i64::MAX
        }
    } else if bits & FLOAT_SIGN != 0 {
        (-float_whole(bits)) as i64
    } else {
        float_whole(bits) as i64
    }
}

/// A binary64 value cut off toward zero to an unsigned integer: zero for a
/// NaN and for a negative value, the greatest integer for a value beyond it
/// (one whose exponent field is 1087 or more, so that its magnitude is two to
/// the power of 64 at least), and else its whole part.
pub open spec fn float_truncated_unsigned(bits: u64) -> u64 {
    if float_is_nan(bits) || bits & FLOAT_SIGN != 0 {
        0
    } else if float_exponent(bits) >= 1087 {
        u64::MAX
    } else {
        float_whole(bits) as u64
    }
}

/// The number of binary digits of a natural number; none for zero.
pub open spec fn bit_length(n: nat) -> nat
    decreases n,
{
    if n == 0 {
        0
    } else {
        1 + bit_length(n / 2)
    }
}

/// A number divided by two to the power of `s` and rounded to the nearest
/// integer, to the even one of two that are equally near.  The mark says that
/// the true number is a little more than `m`.
pub open spec fn round_half_even(m: nat, s: nat, mark: bool) -> nat {
    let unit = pow2(s);
    let kept = m / unit;
    let cut = m % unit;
    if 2 * cut > unit || (2 * cut == unit && (mark || kept % 2 == 1)) {
        kept + 1
    } else {
        kept
    }
}

/// The magnitude bits of the binary64 value nearest to `m` times two to the
/// power of `x`, or to a little more than that where the mark is set.
///
/// The last place that is kept is 52 below the leading digit, but not below
/// the least place of binary64, two to the power of -1074.  The digits down
/// to it are rounded, and the exponent field counts the places from there;
/// digits that round up to two to the power of 53 carry into it.  A value
/// beyond the greatest finite one gives infinity.
pub open spec fn rounded_magnitude(m: nat, x: int, mark: bool) -> u64 {
    if m == 0 {
        0
    } else {
        let top = bit_length(m) + x - 53;
        let last = if top > -1074 {
            top
        } else {
            -1074
        };
        if last + 1074 >= 2047 {
            FLOAT_INFINITY
        } else {
            let digits = if x >= last {
                m * pow2((x - last) as nat)
            } else {
                round_half_even(m, (last - x) as nat, mark)
            };
            let field = (last + 1074) * 0x10_0000_0000_0000 + digits;
            if field >= FLOAT_INFINITY {
                FLOAT_INFINITY
            } else {
                field as u64
            }
        }
    }
}

/// The bits of the binary64 value nearest to a natural number, with ties to
/// the even significand.
pub open spec fn float_of_nat(n: nat) -> u64 {
    rounded_magnitude(n, 0, false)
}

/// The bits of the binary64 value nearest to an integer of 64 bits.
pub open spec fn float_of_int(n: int) -> u64 {
    if n < 0 {
        (FLOAT_SIGN + float_of_nat((-n) as nat)) as u64
    } else {
        float_of_nat(n as nat)
    }
}

/// A positive number lies between the powers of two that its number of
/// digits gives.
pub proof fn lemma_bit_length(n: nat)
    requires
        n > 0,
    ensures
        bit_length(n) > 0,
        pow2((bit_length(n) - 1) as nat) <= n < pow2(bit_length(n)),
    decreases n,
{
    lemma2_to64();
    if n == 1 {
        assert(bit_length(1) == 1 + bit_length(0));
    } else {
        lemma_bit_length(n / 2);
        let len = bit_length(n / 2);
        lemma_pow2_unfold(len);
        lemma_pow2_unfold((len + 1) as nat);
    }
}

/// Whether two binary64 values are equal: neither is a NaN, and they have
/// the same place.  A NaN equals nothing, and the two zeros are equal.
pub open spec fn float_equal(a: u64, b: u64) -> bool {
    !float_is_nan(a) && !float_is_nan(b) && float_key(a) == float_key(b)
}

/// The bits of the binary64 value of a boolean: one for `true`, zero for `false`.
pub open spec fn float_of_bool(b: bool) -> u64 {
    if b {
        FLOAT_ONE
    } else {
        FLOAT_ZERO
    }
}

/// A conversion between a text and a binary64 value, which the caller
/// carries out.
#[derive(Debug, PartialEq)]
pub enum FloatOp {
    /// The binary64 value nearest to the number that the text writes; the
    /// text has the syntax of one.  Answer: the bits of the value.
    Parse(String),
    /// The text of the value with these bits, between the two given texts.
    /// Answer: the text of the value alone.
    Render(String, u64, String),
}

/// What the caller hands back for a [`FloatOp`].
#[derive(Debug, PartialEq)]
pub enum Answer {
    /// The bits of a binary64 value.
    Bits(u64),
    /// A text.
    Text(String),
    /// The conversion has no result.
    Invalid,
}

/// The result of an operation on cells: a cell, or the conversion whose
/// answer settles it.
#[derive(Debug, PartialEq)]
pub enum Outcome {
    /// The resulting cell.
    Done(DCell),
    /// The conversion that is due.
    Float(FloatOp),
}

/// The model of a [`FloatOp`].
pub enum FloatOpValue {
    Parse(Seq<char>),
    Render(Seq<char>, u64, Seq<char>),
}

/// The model of an [`Answer`].
pub enum AnswerValue {
    Bits(u64),
    Text(Seq<char>),
    Invalid,
}

/// The model of an [`Outcome`].
pub enum OutcomeValue {
    Done(CellValue),
    Float(FloatOpValue),
}

impl View for FloatOp {
    type V = FloatOpValue;

    open spec fn view(&self) -> FloatOpValue {
        match self {
            FloatOp::Parse(text) => FloatOpValue::Parse(text@),
            FloatOp::Render(before, bits, after) => FloatOpValue::Render(before@, *bits, after@),
        }
    }
}

impl View for Answer {
    type V = AnswerValue;

    open spec fn view(&self) -> AnswerValue {
        match self {
            Answer::Bits(bits) => AnswerValue::Bits(*bits),
            Answer::Text(text) => AnswerValue::Text(text@),
            Answer::Invalid => AnswerValue::Invalid,
        }
    }
}

impl View for Outcome {
    type V = OutcomeValue;

    open spec fn view(&self) -> OutcomeValue {
        match self {
            Outcome::Done(cell) => OutcomeValue::Done(cell@),
            Outcome::Float(op) => OutcomeValue::Float(op@),
        }
    }
}

/// The cell that a conversion comes to under an answer.  An answer of the
/// wrong shape gives a missing cell.
pub open spec fn settled(op: FloatOpValue, answer: AnswerValue) -> CellValue {
    match (op, answer) {
        (FloatOpValue::Parse(_), AnswerValue::Bits(bits)) => CellValue::Float(bits),
        (FloatOpValue::Render(before, _, after), AnswerValue::Text(text)) => CellValue::Text(
            before + text + after,
        ),
        _ => CellValue::NA,
    }
}

/// The cell of an outcome: the cell itself where it is there, and what the
/// conversion comes to under the answer where one is due.
pub open spec fn resolved(outcome: OutcomeValue, answer: AnswerValue) -> CellValue {
    match outcome {
        OutcomeValue::Done(c) => c,
        OutcomeValue::Float(op) => settled(op, answer),
    }
}

/// Whether the binary64 value with these bits differs from zero.
pub fn is_nonzero(bits: u64) -> (r: bool)
    ensures
        r == float_nonzero(bits),
{
    bits & FLOAT_MAGNITUDE != 0
}

/// Whether these bits are a NaN.
pub fn is_nan_bits(bits: u64) -> (r: bool)
    ensures
        r == float_is_nan(bits),
{
    bits & FLOAT_MAGNITUDE > FLOAT_INFINITY
}

/// The place of a binary64 value among the integers.
pub fn float_rank(bits: u64) -> (r: i64)
    ensures
        r == float_key(bits),
{
    let magnitude: u64 = bits & FLOAT_MAGNITUDE;
    assert(magnitude <= 0x7FFF_FFFF_FFFF_FFFF) by (bit_vector)
        requires
            magnitude == bits & 0x7FFF_FFFF_FFFF_FFFF,
    ;
    if bits & FLOAT_SIGN != 0 {
        -(magnitude as i64)
    } else {
        magnitude as i64
    }
}

/// Whether two binary64 values are equal.
pub fn equal_bits(a: u64, b: u64) -> (r: bool)
    ensures
        r == float_equal(a, b),
{
    !is_nan_bits(a) && !is_nan_bits(b) && float_rank(a) == float_rank(b)
}

/// A binary64 value cut off toward zero to a signed integer.
pub fn truncate_bits(bits: u64) -> (r: i64)
    ensures
        r == float_truncated(bits),
{
    if is_nan_bits(bits) {
        return 0;
    }
    let negative = bits & FLOAT_SIGN != 0;
    let e: u64 = (bits >> 52) & 0x7FF;
    assert(e <= 0x7FF) by (bit_vector)
        requires
            e == (bits >> 52) & 0x7FF,
    ;
    let fraction: u64 = bits & 0xF_FFFF_FFFF_FFFF;
    assert(fraction <= 0xF_FFFF_FFFF_FFFF) by (bit_vector)
        requires
            fraction == bits & 0xF_FFFF_FFFF_FFFF,
    ;
    if e < 1023 {
        proof {
            let down = (-float_scale(bits)) as nat;
            lemma2_to64_rest();
            if down > 53 {
                lemma_pow2_strictly_increases(53, down);
            }
            assert(float_digits(bits) as int / (pow2(down) as int) == 0) by (nonlinear_arith)
                requires
                    float_digits(bits) < 0x20_0000_0000_0000,
                    pow2(down) >= 0x20_0000_0000_0000,
            ;
        }
        return 0;
    }
    if e >= 1086 {
        return if negative {
            i64::MIN
        } else {
            i64::MAX
        };
    }
    let significand: u64 = fraction + 0x10_0000_0000_0000;
    let magnitude: u64 = if e <= 1075 {
        let shift: u64 = 1075 - e;
        proof {
            lemma_u64_shr_is_div(significand, shift);
            lemma2_to64();
            assert(pow2(0) == 1);
            assert(significand as nat / 1 == significand * 1);
        }
        significand >> shift
    } else {
        let shift: u64 = e - 1075;
        proof {
            lemma2_to64();
            lemma_pow2_pos(shift as nat);
            if shift < 10 {
                lemma_pow2_strictly_increases(shift as nat, 10);
            }
            assert(significand * pow2(shift as nat) <= 0x1F_FFFF_FFFF_FFFF * 1024) by (nonlinear_arith)
                requires
                    significand <= 0x1F_FFFF_FFFF_FFFF,
                    0 < pow2(shift as nat) <= 1024,
            ;
            lemma_u64_shl_is_mul(significand, shift);
        }
        significand << shift
    };
    assert(magnitude == float_whole(bits));
    assert(magnitude <= 0x7FFF_FFFF_FFFF_FFFF) by {
        if e <= 1075 {
            lemma_pow2_pos((1075 - e) as nat);
            assert(significand as int / (pow2((1075 - e) as nat) as int) <= significand as int)
                by (nonlinear_arith)
                requires
                    pow2((1075 - e) as nat) > 0,
                    significand >= 0,
            ;
        }
    }
    if negative {
        -(magnitude as i64)
    } else {
        magnitude as i64
    }
}

/// A binary64 value cut off toward zero to an unsigned integer.
pub fn truncate_unsigned_bits(bits: u64) -> (r: u64)
    ensures
        r == float_truncated_unsigned(bits),
{
    if is_nan_bits(bits) || bits & FLOAT_SIGN != 0 {
        return 0;
    }
    let e: u64 = (bits >> 52) & 0x7FF;
    assert(e <= 0x7FF) by (bit_vector)
        requires
            e == (bits >> 52) & 0x7FF,
    ;
    let fraction: u64 = bits & 0xF_FFFF_FFFF_FFFF;
    assert(fraction <= 0xF_FFFF_FFFF_FFFF) by (bit_vector)
        requires
            fraction == bits & 0xF_FFFF_FFFF_FFFF,
    ;
    if e < 1023 {
        proof {
            let down = (-float_scale(bits)) as nat;
            lemma2_to64_rest();
            if down > 53 {
                lemma_pow2_strictly_increases(53, down);
            }
            assert(float_digits(bits) as int / (pow2(down) as int) == 0) by (nonlinear_arith)
                requires
                    float_digits(bits) < 0x20_0000_0000_0000,
                    pow2(down) >= 0x20_0000_0000_0000,
            ;
        }
        return 0;
    }
    if e >= 1087 {
        return u64::MAX;
    }
    let significand: u64 = fraction + 0x10_0000_0000_0000;
    if e <= 1075 {
        let shift: u64 = 1075 - e;
        proof {
            lemma_u64_shr_is_div(significand, shift);
            lemma2_to64();
            assert(pow2(0) == 1);
            assert(significand as nat / 1 == significand * 1);
        }
        significand >> shift
    } else {
        let shift: u64 = e - 1075;
        proof {
            lemma2_to64();
            lemma_pow2_pos(shift as nat);
            if shift < 11 {
                lemma_pow2_strictly_increases(shift as nat, 11);
            }
            assert(significand * pow2(shift as nat) <= 0x1F_FFFF_FFFF_FFFF * 2048) by (nonlinear_arith)
                requires
                    significand <= 0x1F_FFFF_FFFF_FFFF,
                    0 < pow2(shift as nat) <= 2048,
            ;
            lemma_u64_shl_is_mul(significand, shift);
        }
        significand << shift
    }
}

/// Two to the power of `s`.
pub fn power_of_two(s: u64) -> (r: u128)
    requires
        s <= 126,
    ensures
        r == pow2(s as nat),
        r > 0,
{
    let mut r: u128 = 1;
    let mut i: u64 = 0;
    proof {
        lemma2_to64();
    }
    while i < s
        invariant
            i <= s <= 126,
            r == pow2(i as nat),
            r > 0,
        decreases s - i,
    {
        proof {
            lemma_pow2_unfold((i + 1) as nat);
            lemma_pow2_strictly_increases((i + 1) as nat, 127);
            lemma_pow2_adds(63, 64);
            lemma2_to64_rest();
        }
        r = r * 2;
        i += 1;
    }
    r
}

/// The number of binary digits of an unsigned integer.
pub fn count_bits(n: u128) -> (r: u64)
    ensures
        r == bit_length(n as nat),
        r <= 128,
{
    let mut rest: u128 = n;
    let mut count: u64 = 0;
    proof {
        if n > 0 {
            lemma_bit_length(n as nat);
            lemma2_to64_rest();
            lemma_pow2_adds(64, 64);
            let len = bit_length(n as nat);
            if len > 129 {
                lemma_pow2_strictly_increases(128, (len - 1) as nat);
            }
        }
    }
    while rest > 0
        invariant
            bit_length(n as nat) == count + bit_length(rest as nat),
            count + bit_length(rest as nat) <= 128,
            rest > 0 ==> count < 128,
        decreases rest,
    {
        proof {
            lemma_bit_length(rest as nat);
        }
        rest = rest / 2;
        count += 1;
    }
    count
}

/// The magnitude bits of the binary64 value nearest to `m` times two to the
/// power of `x`.
pub fn round_magnitude(m: u128, x: i64, mark: bool) -> (r: u64)
    requires
        m < 0x1_0000_0000_0000_0000_0000_0000_0000_00,
        -5000 <= x <= 5000,
    ensures
        r == rounded_magnitude(m as nat, x as int, mark),
        r <= FLOAT_INFINITY,
{
    if m == 0 {
        return 0;
    }
    let len: i64 = count_bits(m) as i64;
    let top: i64 = len + x - 53;
    let last: i64 = if top > -1074 {
        top
    } else {
        -1074
    };
    if last + 1074 >= 2047 {
        return FLOAT_INFINITY;
    }
    proof {
        lemma_bit_length(m as nat);
        lemma2_to64();
        lemma2_to64_rest();
    }
    let digits: u64 = if x >= last {
        let shift: u64 = (x - last) as u64;
        let p = power_of_two(shift);
        proof {
            lemma_pow2_adds(len as nat, shift as nat);
            if len + shift < 53 {
                lemma_pow2_strictly_increases((len + shift) as nat, 53);
            }
            assert(m * p < pow2(len as nat) * pow2(shift as nat)) by (nonlinear_arith)
                requires
                    m < pow2(len as nat),
                    p == pow2(shift as nat),
                    p > 0,
            ;
        }
        (m * p) as u64
    } else {
        let s: i64 = last - x;
        if s >= 122 {
            proof {
                let unit = pow2(s as nat);
                lemma_pow2_adds(64, 58);
                lemma_pow2_adds(64, 56);
                if s > 122 {
                    lemma_pow2_strictly_increases(122, s as nat);
                }
                assert(m as nat / unit == 0 && m as nat % unit == m) by (nonlinear_arith)
                    requires
                        m < unit,
                ;
            }
            0
        } else {
            let unit = power_of_two(s as u64);
            let kept: u128 = m / unit;
            let cut: u128 = m % unit;
            proof {
                lemma_pow2_adds(53, s as nat);
                if len < 53 + s {
                    lemma_pow2_strictly_increases(len as nat, (53 + s) as nat);
                }
                assert(kept < 0x20_0000_0000_0000) by (nonlinear_arith)
                    requires
                        kept == m / unit,
                        unit > 0,
                        m < 0x20_0000_0000_0000 * unit,
                ;
            }
            if cut > unit - cut || (cut == unit - cut && (mark || kept % 2 == 1)) {
                (kept + 1) as u64
            } else {
                kept as u64
            }
        }
    };
    let field: u64 = ((last + 1074) as u64) * 0x10_0000_0000_0000 + digits;
    if field >= FLOAT_INFINITY {
        FLOAT_INFINITY
    } else {
        field
    }
}

/// The bits of the binary64 value nearest to an unsigned integer.
pub fn widen_unsigned(n: u64) -> (r: u64)
    ensures
        r == float_of_nat(n as nat),
        r <= FLOAT_INFINITY,
{
    round_magnitude(n as u128, 0, false)
}

/// The bits of the binary64 value nearest to a signed integer.
pub fn widen_signed(n: i64) -> (r: u64)
    ensures
        r == float_of_int(n as int),
{
    if n < 0 {
        let magnitude: u64 = (-(n + 1)) as u64 + 1;
        FLOAT_SIGN + widen_unsigned(magnitude)
    } else {
        widen_unsigned(n as u64)
    }
}

/// The bits of the binary64 value of a boolean.
pub fn bool_bits(b: bool) -> (r: u64)
    ensures
        r == float_of_bool(b),
{
    if b {
        FLOAT_ONE
    } else {
        FLOAT_ZERO
    }
}

impl FloatOp {
    /// The cell that this conversion comes to under the caller's answer.
    pub fn settle(self, answer: Answer) -> (r: DCell)
        ensures
            r@ == settled(self@, answer@),
    {
        match (self, answer) {
            (FloatOp::Parse(_), Answer::Bits(bits)) => DCell::Float(bits),
            (FloatOp::Render(before, _, after), Answer::Text(text)) => {
                let joined = before.concat(text.as_str()).concat(after.as_str());
                DCell::Text(joined)
            },
            _ => DCell::NA,
        }
    }
}

impl Clone for Answer {
    fn clone(&self) -> (r: Self)
        ensures
            r == *self,
    {
        match self {
            Answer::Bits(bits) => Answer::Bits(*bits),
            Answer::Text(text) => Answer::Text(text.clone()),
            Answer::Invalid => Answer::Invalid,
        }
    }
}

impl Outcome {
    /// The cell of the outcome, a conversion settled by `answer`.
    pub fn resolve(self, answer: Answer) -> (r: DCell)
        ensures
            r@ == resolved(self@, answer@),
    {
        match self {
            Outcome::Done(cell) => cell,
            Outcome::Float(op) => op.settle(answer),
        }
    }
}

} // verus!
