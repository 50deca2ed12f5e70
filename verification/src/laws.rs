//! Laws that hold between the operations of the library.

use vstd::arithmetic::power2::{lemma2_to64, lemma2_to64_rest, lemma_pow2_adds, lemma_pow2_pos};
use vstd::arithmetic::power2::{lemma_pow2_strictly_increases, pow2};
use vstd::prelude::*;
use crate::cell::{converted, display_text, kind_of, parsed, CellValue};
use crate::convert::converted_cells;
use crate::dtype::{converted_kind, DType};
use crate::float::{bit_length, float_digits, float_exponent, float_of_int, float_of_nat};
use crate::float::{float_magnitude, float_scale};
use crate::ieee::{float_product, float_sum};
use crate::float::{rounded_magnitude, FLOAT_INFINITY};
use crate::float::{float_truncated, float_whole, lemma_bit_length};
use crate::float::{resolved, AnswerValue, OutcomeValue};
use crate::series::{mixed_of, strict_of, valid, SeriesValue};
use crate::syntax::{digits_end, float_syntax, is_decimal, lower_case, spells};
use crate::text::{all_digits, decimal_digits, is_digit, lemma_decimal_digits};
use crate::utils::all_missing;

verus! {

/// Converting twice to one kind is converting once: a cell that was
/// converted to a kind is left as it is by a second conversion to that kind,
/// which takes no conversion by the caller, whatever answer settled the first.
pub proof fn law_conversion_idempotent(c: CellValue, dtype: DType, answer: AnswerValue)
    ensures
        converted(resolved(converted(c, dtype), answer), dtype) == OutcomeValue::Done(
            resolved(converted(c, dtype), answer),
        ),
{
}

/// A cell converted to its own kind is left as it is.
pub proof fn law_conversion_to_own_kind(c: CellValue)
    ensures
        converted(c, kind_of(c)) == OutcomeValue::Done(c),
{
}

/// The text of an unsigned integer, of a negative integer or of a boolean
/// reads back as a cell that converts to the kind it came from and is then
/// the cell it came from.  Such a text is read by the library alone.
pub proof fn law_text_round_trip(c: CellValue)
    requires
        c is UInt || c is Bool || (c matches CellValue::Int(n) && n < 0),
    ensures
        display_text(c) is Some,
        parsed(display_text(c)->0) is Done,
        converted(parsed(display_text(c)->0)->Done_0, kind_of(c)) == OutcomeValue::Done(c),
{
    let text = display_text(c)->0;
    match c {
        CellValue::UInt(n) => {
            lemma_decimal_digits(n as nat);
        },
        CellValue::Int(n) => {
            let digits = decimal_digits((-n) as nat);
            lemma_decimal_digits((-n) as nat);
            assert(text == seq!['-'] + digits);
            assert(text[0] == '-');
            assert(!is_digit(text[0]));
            assert(!all_digits(text));
            assert(text.drop_first() == digits);
        },
        CellValue::Bool(b) => {
            assert(!is_digit(text[0]));
            assert(!all_digits(text));
            assert(text.drop_first().len() > 0);
            assert(!is_digit(text.drop_first()[0]));
            assert(!all_digits(text.drop_first()));
            assert(digits_end(text, 0) == 0);
            assert(!is_decimal(text, 0));
            assert(!spells(text, 0, seq!['i', 'n', 'f'])) by {
                if spells(text, 0, seq!['i', 'n', 'f']) {
                    assert(lower_case(text[0int + 0int]) == 'i');
                }
            }
            assert(!spells(text, 0, seq!['n', 'a', 'n'])) by {
                if spells(text, 0, seq!['n', 'a', 'n']) {
                    assert(lower_case(text[0int + 0int]) == 'n');
                }
            }
            assert(!float_syntax(text));
        },
        _ => {},
    }
}

/// A strict series that became a mixed one and was turned back into a strict
/// series of its former kind is the series it was, whatever the answers: no
/// cell takes a conversion by the caller.  This is stated of the series whose
/// cells are all of its kind or missing, so not of a series of kind `NA` that
/// holds a value.
pub proof fn law_series_round_trip(s: SeriesValue, answers: Seq<AnswerValue>)
    requires
        valid(s),
        s.dtype == DType::NA ==> all_missing(s.cells),
    ensures
        strict_of(mixed_of(s), s.dtype, answers) == s,
{
    assert(converted_cells(s.cells, s.dtype, answers) =~= s.cells) by {
        assert forall|i: int| 0 <= i < s.cells.len() implies #[trigger] converted_cells(
            s.cells,
            s.dtype,
            answers,
        )[i] == s.cells[i] by {
            let c = s.cells[i];
            if !(c is NA) {
                assert(kind_of(c) == s.dtype);
                law_conversion_to_own_kind(c);
            }
        }
    }
}

/// An integer of no more than 53 binary digits is a binary64 value: rounded
/// to binary64 and cut off again, it is the integer it was.
pub proof fn law_integer_through_float(n: int)
    requires
        -0x20_0000_0000_0000 < n < 0x20_0000_0000_0000,
    ensures
        float_truncated(float_of_int(n)) == n,
{
    if n != 0 {
        let m: nat = if n < 0 {
            (-n) as nat
        } else {
            n as nat
        };
        let len = bit_length(m);
        lemma_bit_length(m);
        lemma2_to64();
        lemma2_to64_rest();
        if len > 53 {
            lemma_pow2_strictly_increases(53, (len - 1) as nat);
        }
        let shift = (53 - len) as nat;
        lemma_pow2_adds(len, shift);
        lemma_pow2_adds((len - 1) as nat, shift);
        lemma_pow2_pos(shift);
        let sig = m * pow2(shift);
        assert(sig < pow2(len) * pow2(shift)) by (nonlinear_arith)
            requires
                sig == m * pow2(shift),
                m < pow2(len),
                pow2(shift) > 0,
        ;
        assert(sig >= pow2((len - 1) as nat) * pow2(shift)) by (nonlinear_arith)
            requires
                sig == m * pow2(shift),
                m >= pow2((len - 1) as nat),
                pow2(shift) > 0,
        ;
        let field: u64 = (1022 + len) as u64;
        let fraction: u64 = (sig - 0x10_0000_0000_0000) as u64;
        let magnitude: u64 = (field * 0x10_0000_0000_0000 + fraction) as u64;
        assert(float_of_nat(m) == magnitude);
        let bits = float_of_int(n);
        assert(bits == if n < 0 {
            (magnitude + 0x8000_0000_0000_0000) as u64
        } else {
            magnitude
        });
        let negative = n < 0;
        assert((bits >> 52) & 0x7FF == field && bits & 0xF_FFFF_FFFF_FFFF == fraction && bits
            & 0x7FFF_FFFF_FFFF_FFFF == magnitude && (bits & 0x8000_0000_0000_0000 != 0) == negative)
            by (bit_vector)
            requires
                field < 0x7FF,
                fraction < 0x10_0000_0000_0000,
                magnitude == field * 0x10_0000_0000_0000 + fraction,
                bits == if negative {
                    (magnitude + 0x8000_0000_0000_0000) as u64
                } else {
                    magnitude
                },
        ;
        assert(magnitude < 0x7FF0_0000_0000_0000) by (nonlinear_arith)
            requires
                field < 0x7FF,
                fraction < 0x10_0000_0000_0000,
                magnitude == field * 0x10_0000_0000_0000 + fraction,
        ;
        assert(float_digits(bits) == sig);
        assert(float_exponent(bits) == 1022 + len);
        assert(-float_scale(bits) == shift);
        assert(sig as int / (pow2(shift) as int) == m) by (nonlinear_arith)
            requires
                sig == m * pow2(shift),
                pow2(shift) > 0,
        ;
        assert(pow2(0) == 1);
        assert(shift == 0 ==> sig == m && sig * pow2(0) == m) by (nonlinear_arith)
            requires
                sig == m * pow2(shift),
                shift == 0 ==> pow2(shift) == 1,
                pow2(0) == 1,
        ;
        assert(float_whole(bits) == m);
    } else {
        assert(0u64 & 0x7FFF_FFFF_FFFF_FFFF == 0 && (0u64 >> 52) & 0x7FF == 0 && 0u64
            & 0xF_FFFF_FFFF_FFFF == 0) by (bit_vector);
        lemma_pow2_pos(1074);
        assert(0int / (pow2(1074) as int) == 0) by (nonlinear_arith)
            requires
                pow2(1074) > 0,
        ;
    }
}

/// Rounding leaves every finite binary64 value as it is: the digits and the
/// scale of a value, rounded, give the magnitude bits that they were taken
/// from.
pub proof fn law_rounding_keeps_floats(bits: u64)
    requires
        float_magnitude(bits) < FLOAT_INFINITY,
    ensures
        rounded_magnitude(float_digits(bits), float_scale(bits), false) == float_magnitude(bits),
{
    let e: u64 = (bits >> 52) & 0x7FF;
    let fraction: u64 = bits & 0xF_FFFF_FFFF_FFFF;
    let magnitude: u64 = bits & 0x7FFF_FFFF_FFFF_FFFF;
    assert(e < 0x7FF && fraction < 0x10_0000_0000_0000 && magnitude == e * 0x10_0000_0000_0000
        + fraction) by (bit_vector)
        requires
            e == (bits >> 52) & 0x7FF,
            fraction == bits & 0xF_FFFF_FFFF_FFFF,
            magnitude == bits & 0x7FFF_FFFF_FFFF_FFFF,
            magnitude < 0x7FF0_0000_0000_0000,
    ;
    let digits = float_digits(bits);
    lemma2_to64();
    lemma2_to64_rest();
    if digits > 0 {
        let len = bit_length(digits);
        lemma_bit_length(digits);
        if e == 0 {
            if len > 53 {
                lemma_pow2_strictly_increases(52, (len - 1) as nat);
            }
        } else {
            if len > 54 {
                lemma_pow2_strictly_increases(53, (len - 1) as nat);
            }
            if len < 52 {
                lemma_pow2_strictly_increases(len, 52);
            }
            assert(len == 53);
        }
        assert(digits * pow2(0) == digits);
    }
}

/// The conversion of kinds says what the conversion of cells does.  Where a
/// kind becomes `NA`, every cell of it becomes missing.  Where it becomes the
/// target, every cell of it becomes a cell of the target, by the library
/// alone or by printing a binary64 value.  It becomes `Mixed` for texts only,
/// which are parsed.
pub proof fn law_kinds_follow_cells(c: CellValue, target: DType)
    ensures
        converted_kind(kind_of(c), target) == DType::NA ==> converted(c, target) == OutcomeValue::Done(
            CellValue::NA,
        ),
        converted_kind(kind_of(c), target) == target && target != DType::NA ==> match converted(
            c,
            target,
        ) {
            OutcomeValue::Done(r) => kind_of(r) == target,
            OutcomeValue::Float(op) => op is Render,
        },
        converted_kind(kind_of(c), target) == DType::Mixed ==> c is Text && target != DType::Text,
{
}

/// The sum and the product of two binary64 values do not depend on their
/// order.
pub proof fn law_float_operations_commute(a: u64, b: u64)
    ensures
        float_sum(a, b) == float_sum(b, a),
        float_product(a, b) == float_product(b, a),
{
    assert(float_digits(a) * float_digits(b) == float_digits(b) * float_digits(a))
        by (nonlinear_arith);
    assert(a & 0x7FFF_FFFF_FFFF_FFFF == 0x7FF0_0000_0000_0000 && b & 0x7FFF_FFFF_FFFF_FFFF
        == 0x7FF0_0000_0000_0000 && (a & 0x8000_0000_0000_0000 != 0) == (b & 0x8000_0000_0000_0000
        != 0) ==> a == b) by (bit_vector);
}

} // verus!
