//! Binary64 arithmetic on bit patterns: IEEE 754 sums, differences, products
//! and quotients, rounded to nearest with ties to even.
//!
//! A finite binary64 value is an integer of at most 53 binary digits, its
//! digits, times a power of two, its scale.  The result of an operation is
//! the exact result rounded to the nearest such value.  Every NaN that an
//! operation gives is the one quiet NaN [`FLOAT_NAN`]; a machine may give a
//! NaN of another sign or payload, which equality, order and printing do not
//! tell from this one.

use vstd::arithmetic::power2::{lemma2_to64, lemma2_to64_rest, lemma_pow2_adds, lemma_pow2_pos};
use vstd::arithmetic::power2::{lemma_pow2_strictly_increases, lemma_pow2_unfold, pow2};
use vstd::prelude::*;
use crate::float::{bit_length, count_bits, float_exponent, lemma_bit_length};
use crate::float::{float_digits, float_magnitude, float_negative, float_scale};
use crate::float::{power_of_two, round_magnitude, rounded_magnitude};
use crate::float::{FLOAT_INFINITY, FLOAT_MAGNITUDE, FLOAT_SIGN};

verus! {

/// The quiet NaN that the operations give.
pub const FLOAT_NAN: u64 = 0x7FF8_0000_0000_0000;

/// The given magnitude with a sign.
pub open spec fn with_sign(negative: bool, magnitude: u64) -> u64 {
    if negative {
        (magnitude + FLOAT_SIGN) as u64
    } else {
        magnitude
    }
}

/// The product of two binary64 values.  A NaN gives a NaN, and so does
/// infinity times zero; infinity times anything else is infinity; two finite
/// values give their exact product, rounded.  The sign is negative where the
/// signs of the two differ.
pub open spec fn float_product(a: u64, b: u64) -> u64 {
    let negative = float_negative(a) != float_negative(b);
    if float_magnitude(a) > FLOAT_INFINITY || float_magnitude(b) > FLOAT_INFINITY {
        FLOAT_NAN
    } else if float_magnitude(a) == FLOAT_INFINITY || float_magnitude(b) == FLOAT_INFINITY {
        if float_magnitude(a) == 0 || float_magnitude(b) == 0 {
            FLOAT_NAN
        } else {
            with_sign(negative, FLOAT_INFINITY)
        }
    } else {
        with_sign(
            negative,
            rounded_magnitude(float_digits(a) * float_digits(b), float_scale(a) + float_scale(b), false),
        )
    }
}

/// The digits of a finite value with its sign.
pub open spec fn signed_digits(bits: u64) -> int {
    if float_negative(bits) {
        -(float_digits(bits) as int)
    } else {
        float_digits(bits) as int
    }
}

/// The sum of two binary64 values.  A NaN gives a NaN, and so do two
/// infinities of different signs; an infinity and anything else is that
/// infinity.  Two finite values give their exact sum, rounded; an exact sum
/// of zero is negative only where both values are.
pub open spec fn float_sum(a: u64, b: u64) -> u64 {
    if float_magnitude(a) > FLOAT_INFINITY || float_magnitude(b) > FLOAT_INFINITY {
        FLOAT_NAN
    } else if float_magnitude(a) == FLOAT_INFINITY {
        if float_magnitude(b) == FLOAT_INFINITY && float_negative(a) != float_negative(b) {
            FLOAT_NAN
        } else {
            a
        }
    } else if float_magnitude(b) == FLOAT_INFINITY {
        b
    } else {
        let x = if float_scale(a) < float_scale(b) {
            float_scale(a)
        } else {
            float_scale(b)
        };
        let total = signed_digits(a) * pow2((float_scale(a) - x) as nat) + signed_digits(b) * pow2(
            (float_scale(b) - x) as nat,
        );
        if total == 0 {
            with_sign(float_negative(a) && float_negative(b), 0)
        } else if total < 0 {
            with_sign(true, rounded_magnitude((-total) as nat, x, false))
        } else {
            with_sign(false, rounded_magnitude(total as nat, x, false))
        }
    }
}

/// The value with the other sign.
pub open spec fn float_negated(bits: u64) -> u64 {
    bits ^ FLOAT_SIGN
}

/// The difference of two binary64 values: the sum of the first and of the
/// second with the other sign.
pub open spec fn float_difference(a: u64, b: u64) -> u64 {
    float_sum(a, float_negated(b))
}

/// The quotient of two binary64 values.  A NaN gives a NaN, and so do
/// infinity by infinity and zero by zero.  Infinity by a finite value and a
/// value that is not zero by zero give infinity; a finite value by infinity
/// and zero by a value that is not zero give zero.  Else the digits of both
/// are moved up to 53 places, the quotient of the two is taken to 64 binary
/// places, with a mark where the division leaves a rest, and rounded.  The
/// sign is negative where the signs of the two differ.
pub open spec fn float_quotient(a: u64, b: u64) -> u64 {
    let negative = float_negative(a) != float_negative(b);
    if float_magnitude(a) > FLOAT_INFINITY || float_magnitude(b) > FLOAT_INFINITY {
        FLOAT_NAN
    } else if float_magnitude(a) == FLOAT_INFINITY {
        if float_magnitude(b) == FLOAT_INFINITY {
            FLOAT_NAN
        } else {
            with_sign(negative, FLOAT_INFINITY)
        }
    } else if float_magnitude(b) == FLOAT_INFINITY {
        with_sign(negative, 0)
    } else if float_magnitude(b) == 0 {
        if float_magnitude(a) == 0 {
            FLOAT_NAN
        } else {
            with_sign(negative, FLOAT_INFINITY)
        }
    } else if float_magnitude(a) == 0 {
        with_sign(negative, 0)
    } else {
        let up_a = (53 - bit_length(float_digits(a))) as nat;
        let up_b = (53 - bit_length(float_digits(b))) as nat;
        let p = float_digits(a) * pow2(up_a) * pow2(64);
        let q = float_digits(b) * pow2(up_b);
        with_sign(
            negative,
            rounded_magnitude(
                p / q,
                float_scale(a) - up_a - (float_scale(b) - up_b) - 64,
                p % q != 0,
            ),
        )
    }
}

/// A number between two neighbouring powers of two has as many binary
/// digits as the greater of them says.
pub proof fn lemma_bit_length_between(m: nat, n: nat)
    requires
        n > 0,
        pow2((n - 1) as nat) <= m < pow2(n),
    ensures
        bit_length(m) == n,
{
    lemma_pow2_pos((n - 1) as nat);
    lemma_bit_length(m);
    let len = bit_length(m);
    if len < n {
        if len < n - 1 {
            lemma_pow2_strictly_increases(len, (n - 1) as nat);
        }
    } else if len > n {
        if len - 1 > n {
            lemma_pow2_strictly_increases(n, (len - 1) as nat);
        }
    }
}

/// A value of 53 digits keeps its bits when a part is added that lies more
/// than 60 binary places below its last digit: the sum rounds to the value.
pub proof fn lemma_small_part_is_lost(digits: nat, scale: int, part: int, gap: nat)
    requires
        0x10_0000_0000_0000 <= digits < 0x20_0000_0000_0000,
        -0x20_0000_0000_0000 < part < 0x20_0000_0000_0000,
        60 < gap,
        -1074 <= scale - gap,
        scale <= 971,
    ensures
        digits * pow2(gap) + part > 0,
        rounded_magnitude((digits * pow2(gap) + part) as nat, scale - gap, false) == (scale + 1074)
            * 0x10_0000_0000_0000 + digits,
{
    lemma2_to64();
    lemma2_to64_rest();
    let unit = pow2(gap);
    let half = pow2((gap - 1) as nat);
    if gap - 1 > 60 {
        lemma_pow2_strictly_increases(60, (gap - 1) as nat);
    }
    lemma_pow2_unfold(gap);
    assert(unit == 2 * half);
    assert(half >= 0x1000_0000_0000_0000);
    lemma_pow2_adds(52, gap);
    lemma_pow2_adds(53, gap);
    lemma_pow2_adds(52, (gap - 1) as nat);
    lemma_pow2_adds(53, (gap - 1) as nat);
    lemma_pow2_adds(51, gap);
    let total = digits * unit + part;
    assert(digits * unit >= 0x10_0000_0000_0000 * unit && digits * unit <= 0x1F_FFFF_FFFF_FFFF * unit)
        by (nonlinear_arith)
        requires
            0x10_0000_0000_0000 <= digits <= 0x1F_FFFF_FFFF_FFFF,
            unit > 0,
    ;
    if part >= 0 {
        assert(total < pow2(53 + gap)) by (nonlinear_arith)
            requires
                total == digits * unit + part,
                digits * unit <= 0x1F_FFFF_FFFF_FFFF * unit,
                part < unit,
                pow2(53 + gap) == 0x20_0000_0000_0000 * unit,
        ;
        lemma_bit_length_between(total as nat, 53 + gap);
        vstd::arithmetic::div_mod::lemma_fundamental_div_mod_converse(
            total,
            unit as int,
            digits as int,
            part,
        );
    } else if digits > 0x10_0000_0000_0000 {
        assert(total == (digits - 1) * unit + (unit + part)) by (nonlinear_arith)
            requires
                total == digits * unit + part,
        ;
        assert((digits - 1) * unit >= 0x10_0000_0000_0000 * unit) by (nonlinear_arith)
            requires
                digits - 1 >= 0x10_0000_0000_0000,
                unit > 0,
        ;
        lemma_bit_length_between(total as nat, 53 + gap);
        vstd::arithmetic::div_mod::lemma_fundamental_div_mod_converse(
            total,
            unit as int,
            digits - 1,
            unit + part,
        );
    } else {
        assert(total == 0x1F_FFFF_FFFF_FFFF * half + (half + part)) by (nonlinear_arith)
            requires
                total == digits * unit + part,
                digits == 0x10_0000_0000_0000,
                unit == 2 * half,
        ;
        assert(0x1F_FFFF_FFFF_FFFF * half >= pow2(51 + gap)) by (nonlinear_arith)
            requires
                pow2(51 + gap) == 0x8_0000_0000_0000 * unit,
                unit == 2 * half,
                half > 0,
        ;
        assert(total < pow2(52 + gap));
        lemma_bit_length_between(total as nat, 52 + gap);
        vstd::arithmetic::div_mod::lemma_fundamental_div_mod_converse(
            total,
            half as int,
            0x1F_FFFF_FFFF_FFFF,
            half + part,
        );
    }
}

/// Of two finite values whose scales differ by more than 60, the one of
/// smaller scale is less than a thousandth of the last place of the other,
/// and their exact sum rounds to the other.
pub proof fn lemma_far_apart(a: u64, b: u64)
    requires
        float_magnitude(a) < FLOAT_INFINITY,
        float_magnitude(b) < FLOAT_INFINITY,
        float_scale(a) - float_scale(b) > 60,
    ensures
        ({
            let total = signed_digits(a) * pow2((float_scale(a) - float_scale(b)) as nat)
                + signed_digits(b) * pow2(0);
            &&& total != 0
            &&& (total < 0) == float_negative(a)
            &&& with_sign(
                float_negative(a),
                rounded_magnitude(
                    (if total < 0 {
                        -total
                    } else {
                        total
                    }) as nat,
                    float_scale(b),
                    false,
                ),
            ) == a
        }),
{
    let ea: u64 = (a >> 52) & 0x7FF;
    let fa: u64 = a & 0xF_FFFF_FFFF_FFFF;
    let ma: u64 = a & 0x7FFF_FFFF_FFFF_FFFF;
    assert(ea < 0x7FF && fa <= 0xF_FFFF_FFFF_FFFF && ma == ea * 0x10_0000_0000_0000 + fa && a == ma
        + (a & 0x8000_0000_0000_0000) && (a & 0x8000_0000_0000_0000 == 0 || a
        & 0x8000_0000_0000_0000 == 0x8000_0000_0000_0000)) by (bit_vector)
        requires
            ea == (a >> 52) & 0x7FF,
            fa == a & 0xF_FFFF_FFFF_FFFF,
            ma == a & 0x7FFF_FFFF_FFFF_FFFF,
            ma < 0x7FF0_0000_0000_0000,
    ;
    let eb: u64 = (b >> 52) & 0x7FF;
    let fb: u64 = b & 0xF_FFFF_FFFF_FFFF;
    assert(eb < 0x7FF && fb <= 0xF_FFFF_FFFF_FFFF) by (bit_vector)
        requires
            eb == (b >> 52) & 0x7FF,
            fb == b & 0xF_FFFF_FFFF_FFFF,
            b & 0x7FFF_FFFF_FFFF_FFFF < 0x7FF0_0000_0000_0000,
    ;
    lemma2_to64();
    let da = float_digits(a);
    let db = float_digits(b);
    let gap = (float_scale(a) - float_scale(b)) as nat;
    let unit = pow2(gap);
    let part: int = if float_negative(a) == float_negative(b) {
        db as int
    } else {
        -(db as int)
    };
    lemma_small_part_is_lost(da, float_scale(a), part, gap);
    let total = signed_digits(a) * unit + signed_digits(b) * pow2(0);
    assert(total == if float_negative(a) {
        -(da * unit + part)
    } else {
        da * unit + part
    }) by (nonlinear_arith)
        requires
            total == signed_digits(a) * unit + signed_digits(b) * 1,
            signed_digits(a) == if float_negative(a) { -(da as int) } else { da as int },
            signed_digits(b) == if float_negative(b) { -(db as int) } else { db as int },
            part == if float_negative(a) == float_negative(b) { db as int } else { -(db as int) },
    ;
}

/// The digits and the scale of a finite value.
fn decode(bits: u64) -> (r: (u64, i64))
    requires
        float_magnitude(bits) < FLOAT_INFINITY,
    ensures
        r.0 == float_digits(bits),
        r.1 == float_scale(bits),
        r.0 < 0x20_0000_0000_0000,
        -1074 <= r.1 <= 971,
        r.1 > -1074 ==> r.0 >= 0x10_0000_0000_0000,
        (r.0 == 0) == (float_magnitude(bits) == 0),
        float_magnitude(bits) == (r.1 + 1074) * 0x10_0000_0000_0000 + r.0,
        bits == with_sign(float_negative(bits), float_magnitude(bits)),
{
    let e: u64 = (bits >> 52) & 0x7FF;
    let fraction: u64 = bits & 0xF_FFFF_FFFF_FFFF;
    let magnitude: u64 = bits & 0x7FFF_FFFF_FFFF_FFFF;
    assert(e < 0x7FF && fraction <= 0xF_FFFF_FFFF_FFFF && ((e == 0 && fraction == 0) == (magnitude
        == 0)) && magnitude == e * 0x10_0000_0000_0000 + fraction && bits == magnitude + (bits
        & 0x8000_0000_0000_0000) && (bits & 0x8000_0000_0000_0000 == 0 || bits
        & 0x8000_0000_0000_0000 == 0x8000_0000_0000_0000)) by (bit_vector)
        requires
            e == (bits >> 52) & 0x7FF,
            fraction == bits & 0xF_FFFF_FFFF_FFFF,
            magnitude == bits & 0x7FFF_FFFF_FFFF_FFFF,
            magnitude < 0x7FF0_0000_0000_0000,
    ;
    if e == 0 {
        (fraction, -1074)
    } else {
        (fraction + 0x10_0000_0000_0000, e as i64 - 1075)
    }
}

/// The given magnitude with a sign.
fn sign_bits(negative: bool, magnitude: u64) -> (r: u64)
    requires
        magnitude <= FLOAT_INFINITY,
    ensures
        r == with_sign(negative, magnitude),
{
    if negative {
        magnitude + FLOAT_SIGN
    } else {
        magnitude
    }
}

/// The product of two binary64 values.
pub fn multiply_bits(a: u64, b: u64) -> (r: u64)
    ensures
        r == float_product(a, b),
{
    let negative = (a & FLOAT_SIGN != 0) != (b & FLOAT_SIGN != 0);
    let ma = a & FLOAT_MAGNITUDE;
    let mb = b & FLOAT_MAGNITUDE;
    if ma > FLOAT_INFINITY || mb > FLOAT_INFINITY {
        return FLOAT_NAN;
    }
    if ma == FLOAT_INFINITY || mb == FLOAT_INFINITY {
        return if ma == 0 || mb == 0 {
            FLOAT_NAN
        } else {
            sign_bits(negative, FLOAT_INFINITY)
        };
    }
    let (da, xa) = decode(a);
    let (db, xb) = decode(b);
    assert(da * db < 0x20_0000_0000_0000 * 0x20_0000_0000_0000) by (nonlinear_arith)
        requires
            da < 0x20_0000_0000_0000,
            db < 0x20_0000_0000_0000,
    ;
    let product: u128 = (da as u128) * (db as u128);
    sign_bits(negative, round_magnitude(product, xa + xb, false))
}

/// The sum of two binary64 values.
pub fn add_bits(a: u64, b: u64) -> (r: u64)
    ensures
        r == float_sum(a, b),
{
    let ma = a & FLOAT_MAGNITUDE;
    let mb = b & FLOAT_MAGNITUDE;
    let na = a & FLOAT_SIGN != 0;
    let nb = b & FLOAT_SIGN != 0;
    if ma > FLOAT_INFINITY || mb > FLOAT_INFINITY {
        return FLOAT_NAN;
    }
    if ma == FLOAT_INFINITY {
        return if mb == FLOAT_INFINITY && na != nb {
            FLOAT_NAN
        } else {
            a
        };
    }
    if mb == FLOAT_INFINITY {
        return b;
    }
    let (da, xa) = decode(a);
    let (db, xb) = decode(b);
    if xa - xb > 60 {
        proof {
            lemma_far_apart(a, b);
        }
        return a;
    }
    if xb - xa > 60 {
        proof {
            lemma_far_apart(b, a);
            assert(signed_digits(b) * pow2((xb - xa) as nat) + signed_digits(a) * pow2(0)
                == signed_digits(a) * pow2(0) + signed_digits(b) * pow2((xb - xa) as nat));
        }
        return b;
    }
    let x: i64 = if xa < xb {
        xa
    } else {
        xb
    };
    let pa = power_of_two((xa - x) as u64);
    let pb = power_of_two((xb - x) as u64);
    proof {
        lemma2_to64();
        lemma2_to64_rest();
        if xa - x < 60 {
            lemma_pow2_strictly_increases((xa - x) as nat, 60);
        }
        if xb - x < 60 {
            lemma_pow2_strictly_increases((xb - x) as nat, 60);
        }
        assert(da * pa <= 0x20_0000_0000_0000 * 0x1000_0000_0000_0000) by (nonlinear_arith)
            requires
                da < 0x20_0000_0000_0000,
                pa <= 0x1000_0000_0000_0000,
        ;
        assert(db * pb <= 0x20_0000_0000_0000 * 0x1000_0000_0000_0000) by (nonlinear_arith)
            requires
                db < 0x20_0000_0000_0000,
                pb <= 0x1000_0000_0000_0000,
        ;
    }
    let wa: i128 = ((da as u128) * pa) as i128;
    let wb: i128 = ((db as u128) * pb) as i128;
    let sa: i128 = if na {
        -wa
    } else {
        wa
    };
    let sb: i128 = if nb {
        -wb
    } else {
        wb
    };
    let total: i128 = sa + sb;
    proof {
        let ga = signed_digits(a);
        let gb = signed_digits(b);
        assert(sa == ga * pa) by (nonlinear_arith)
            requires
                wa == da * pa,
                sa == if na { -(wa as int) } else { wa as int },
                ga == if na { -(da as int) } else { da as int },
        ;
        assert(sb == gb * pb) by (nonlinear_arith)
            requires
                wb == db * pb,
                sb == if nb { -(wb as int) } else { wb as int },
                gb == if nb { -(db as int) } else { db as int },
        ;
    }
    if total == 0 {
        sign_bits(na && nb, 0)
    } else if total < 0 {
        sign_bits(true, round_magnitude((-total) as u128, x, false))
    } else {
        sign_bits(false, round_magnitude(total as u128, x, false))
    }
}

/// The difference of two binary64 values.
pub fn subtract_bits(a: u64, b: u64) -> (r: u64)
    ensures
        r == float_difference(a, b),
{
    add_bits(a, b ^ FLOAT_SIGN)
}

/// The quotient of two binary64 values.
pub fn divide_bits(a: u64, b: u64) -> (r: u64)
    ensures
        r == float_quotient(a, b),
{
    let negative = (a & FLOAT_SIGN != 0) != (b & FLOAT_SIGN != 0);
    let ma = a & FLOAT_MAGNITUDE;
    let mb = b & FLOAT_MAGNITUDE;
    if ma > FLOAT_INFINITY || mb > FLOAT_INFINITY {
        return FLOAT_NAN;
    }
    if ma == FLOAT_INFINITY {
        return if mb == FLOAT_INFINITY {
            FLOAT_NAN
        } else {
            sign_bits(negative, FLOAT_INFINITY)
        };
    }
    if mb == FLOAT_INFINITY {
        return sign_bits(negative, 0);
    }
    if mb == 0 {
        return if ma == 0 {
            FLOAT_NAN
        } else {
            sign_bits(negative, FLOAT_INFINITY)
        };
    }
    if ma == 0 {
        return sign_bits(negative, 0);
    }
    let (da, xa) = decode(a);
    let (db, xb) = decode(b);
    let la = count_bits(da as u128);
    let lb = count_bits(db as u128);
    proof {
        lemma_bit_length(da as nat);
        lemma_bit_length(db as nat);
        lemma2_to64();
        lemma2_to64_rest();
        if la > 53 {
            lemma_pow2_strictly_increases(53, (la - 1) as nat);
        }
        if lb > 53 {
            lemma_pow2_strictly_increases(53, (lb - 1) as nat);
        }
    }
    let ua: u64 = 53 - la;
    let ub: u64 = 53 - lb;
    let pa = power_of_two(ua);
    let pb = power_of_two(ub);
    proof {
        lemma_pow2_adds(la as nat, ua as nat);
        lemma_pow2_adds((la - 1) as nat, ua as nat);
        lemma_pow2_adds(lb as nat, ub as nat);
        lemma_pow2_adds((lb - 1) as nat, ub as nat);
        assert(da * pa < pow2(la as nat) * pa && da * pa >= pow2((la - 1) as nat) * pa)
            by (nonlinear_arith)
            requires
                da < pow2(la as nat),
                da >= pow2((la - 1) as nat),
                pa > 0,
        ;
        assert(db * pb < pow2(lb as nat) * pb && db * pb >= pow2((lb - 1) as nat) * pb)
            by (nonlinear_arith)
            requires
                db < pow2(lb as nat),
                db >= pow2((lb - 1) as nat),
                pb > 0,
        ;
    }
    let top: u128 = (da as u128) * pa;
    let q: u128 = (db as u128) * pb;
    let scale = power_of_two(64);
    assert(top * scale < 0x20_0000_0000_0000 * 0x1_0000_0000_0000_0000) by (nonlinear_arith)
        requires
            top < 0x20_0000_0000_0000,
            scale == 0x1_0000_0000_0000_0000,
    ;
    let p: u128 = top * scale;
    let n: u128 = p / q;
    let rest: u128 = p % q;
    assert(n <= p) by (nonlinear_arith)
        requires
            n == p / q,
            q >= 1,
    ;
    sign_bits(negative, round_magnitude(n, xa - (ua as i64) - (xb - (ub as i64)) - 64, rest != 0))
}

} // verus!
