//! Arithmetic on cells, decided by the kinds of the two operands.

use vstd::prelude::*;
use crate::cell::{display_text, CellValue, DCell};
use crate::float::{bool_bits, truncate_unsigned_bits, widen_signed, widen_unsigned};
use crate::float::{float_of_bool, float_of_int, float_of_nat, float_truncated_unsigned};
use crate::float::{FloatOp, FloatOpValue, Outcome, OutcomeValue};
use crate::ieee::{add_bits, divide_bits, multiply_bits, subtract_bits};
use crate::ieee::{float_difference, float_product, float_quotient, float_sum};
use crate::text::char_to_string;

verus! {

/// The integer 0 or 1 that a boolean counts as among signed integers.
pub open spec fn signed_bit(b: bool) -> i64 {
    if b {
        1
    } else {
        0
    }
}

/// The integer 0 or 1 that a boolean counts as among unsigned integers.
pub open spec fn unsigned_bit(b: bool) -> u64 {
    if b {
        1
    } else {
        0
    }
}

/// The signed integer in a cell: that of a signed integer cell, and 0 or 1
/// for a boolean.
pub open spec fn signed_of(c: CellValue) -> Option<i64> {
    match c {
        CellValue::Int(n) => Some(n),
        CellValue::Bool(b) => Some(signed_bit(b)),
        _ => None,
    }
}

/// The unsigned integer in a cell: that of an unsigned integer cell, and 0
/// or 1 for a boolean.
pub open spec fn unsigned_of(c: CellValue) -> Option<u64> {
    match c {
        CellValue::UInt(n) => Some(n),
        CellValue::Bool(b) => Some(unsigned_bit(b)),
        _ => None,
    }
}

/// The number in a numeric cell as a binary64 value: that of a binary64
/// cell, and the one nearest to the integer of an integer cell.
pub open spec fn operand_of(c: CellValue) -> Option<u64> {
    match c {
        CellValue::Int(n) => Some(float_of_int(n as int)),
        CellValue::UInt(n) => Some(float_of_nat(n as nat)),
        CellValue::Float(bits) => Some(bits),
        _ => None,
    }
}

/// The number in a cell as a binary64 value, a boolean counting as 0 or 1.
pub open spec fn binary64_of(c: CellValue) -> Option<u64> {
    match c {
        CellValue::Bool(b) => Some(float_of_bool(b)),
        _ => operand_of(c),
    }
}

/// How often a cell has a text written: a signed integer as often as it
/// says and never where it is negative, an unsigned integer as often as it
/// says, a binary64 number as often as its whole part says, and a boolean
/// once or never.  Other cells count nothing.
pub open spec fn count_of(c: CellValue) -> Option<nat> {
    match c {
        CellValue::Int(n) => Some(
            if n < 0 {
                0
            } else {
                n as nat
            },
        ),
        CellValue::UInt(n) => Some(n as nat),
        CellValue::Float(bits) => Some(float_truncated_unsigned(bits) as nat),
        CellValue::Bool(b) => Some(unsigned_bit(b) as nat),
        _ => None,
    }
}

/// Whether the cell is a character or a text.
pub open spec fn is_textual(c: CellValue) -> bool {
    c is Char || c is Text
}

/// The quotient of two signed integers, rounded toward zero.  The one
/// quotient that does not fit, that of the least integer by minus one, wraps
/// to the least integer.
pub open spec fn signed_quotient(a: i64, b: i64) -> i64
    recommends
        b != 0,
{
    if a == i64::MIN && b == -1 {
        i64::MIN
    } else {
        let magnitude = (if a < 0 { -a } else { a as int }) / (if b < 0 { -b } else { b as int });
        if (a < 0) == (b < 0) {
            magnitude as i64
        } else {
            (-magnitude) as i64
        }
    }
}

/// The texts of two cells, one after the other.  Where one of them is a
/// binary64 number its text is the caller's to print, between what stands
/// before and after it.
pub open spec fn joined(lhs: CellValue, rhs: CellValue) -> OutcomeValue {
    match (lhs, rhs) {
        (CellValue::Float(a), CellValue::Float(_)) => OutcomeValue::Done(CellValue::NA),
        (CellValue::Float(bits), _) => OutcomeValue::Float(
            FloatOpValue::Render(Seq::empty(), bits, display_text(rhs).unwrap()),
        ),
        (_, CellValue::Float(bits)) => OutcomeValue::Float(
            FloatOpValue::Render(display_text(lhs).unwrap(), bits, Seq::empty()),
        ),
        _ => OutcomeValue::Done(CellValue::Text(display_text(lhs).unwrap() + display_text(rhs).unwrap())),
    }
}

/// A text written `n` times over.
pub open spec fn repeated(s: Seq<char>, n: nat) -> Seq<char>
    decreases n,
{
    if n == 0 {
        Seq::empty()
    } else {
        repeated(s, (n - 1) as nat) + s
    }
}

/// The text of a character or text cell.
pub open spec fn text_of(c: CellValue) -> Seq<char>
    recommends
        is_textual(c),
{
    match c {
        CellValue::Char(ch) => seq![ch],
        CellValue::Text(s) => s,
        _ => Seq::empty(),
    }
}

/// The sum of two cells.
///
/// Two booleans give their conjunction.  Else a boolean counts as 0 or 1.
/// Two signed integers give a signed integer and two unsigned integers an
/// unsigned one, both wrapping on overflow.  Every other pair of numbers is
/// added in binary64, an integer being rounded to the nearest binary64 value
/// first.  Where one cell is a character or a text and the other is not
/// missing, the texts of the two are joined.  Every other pair gives a
/// missing cell.
pub open spec fn sum(lhs: CellValue, rhs: CellValue) -> OutcomeValue {
    match (lhs, rhs) {
        (CellValue::Bool(a), CellValue::Bool(b)) => OutcomeValue::Done(CellValue::Bool(a && b)),
        _ => if let (Some(a), Some(b)) = (signed_of(lhs), signed_of(rhs)) {
            OutcomeValue::Done(CellValue::Int(a.wrapping_add(b)))
        } else if let (Some(a), Some(b)) = (unsigned_of(lhs), unsigned_of(rhs)) {
            OutcomeValue::Done(CellValue::UInt(a.wrapping_add(b)))
        } else if let (Some(x), Some(y)) = (binary64_of(lhs), binary64_of(rhs)) {
            OutcomeValue::Done(CellValue::Float(float_sum(x, y)))
        } else if (is_textual(lhs) || is_textual(rhs)) && !(lhs is NA) && !(rhs is NA) {
            joined(lhs, rhs)
        } else {
            OutcomeValue::Done(CellValue::NA)
        },
    }
}

/// The difference of two cells.
///
/// Two booleans give their disjunction.  Else a boolean counts as 0 or 1.
/// Two signed integers give a signed integer, wrapping on overflow.  Every
/// other pair of numbers is subtracted in binary64, so that the difference of
/// two unsigned integers may lie below zero.  Every other pair gives a
/// missing cell.
pub open spec fn difference(lhs: CellValue, rhs: CellValue) -> CellValue {
    match (lhs, rhs) {
        (CellValue::Bool(a), CellValue::Bool(b)) => CellValue::Bool(a || b),
        _ => if let (Some(a), Some(b)) = (signed_of(lhs), signed_of(rhs)) {
            CellValue::Int(a.wrapping_sub(b))
        } else if let (Some(x), Some(y)) = (binary64_of(lhs), binary64_of(rhs)) {
            CellValue::Float(float_difference(x, y))
        } else {
            CellValue::NA
        },
    }
}

/// The product of two cells.
///
/// Two booleans give their exclusive disjunction.  Else a boolean counts as
/// 0 or 1.  Two signed integers give a signed integer, and an unsigned
/// integer or a boolean times an unsigned integer gives an unsigned one, both
/// wrapping on overflow.  Every other pair of numbers is multiplied in
/// binary64; that is so for an unsigned integer times a boolean.  A character
/// or a text and a number or a boolean, in either order, give the text
/// written as often as [`count_of`] says.  Every other pair gives a missing
/// cell.
pub open spec fn product(lhs: CellValue, rhs: CellValue) -> CellValue {
    match (lhs, rhs) {
        (CellValue::Bool(a), CellValue::Bool(b)) => CellValue::Bool(a != b),
        _ => if let (Some(a), Some(b)) = (signed_of(lhs), signed_of(rhs)) {
            CellValue::Int(a.wrapping_mul(b))
        } else if let (Some(a), CellValue::UInt(b)) = (unsigned_of(lhs), rhs) {
            CellValue::UInt(a.wrapping_mul(b))
        } else if let (Some(x), Some(y)) = (binary64_of(lhs), binary64_of(rhs)) {
            CellValue::Float(float_product(x, y))
        } else if let (true, Some(n)) = (is_textual(lhs), count_of(rhs)) {
            CellValue::Text(repeated(text_of(lhs), n))
        } else if let (Some(n), true) = (count_of(lhs), is_textual(rhs)) {
            CellValue::Text(repeated(text_of(rhs), n))
        } else {
            CellValue::NA
        },
    }
}

/// The quotient of two cells.
///
/// Two signed integers give their quotient rounded toward zero, and so do
/// two unsigned integers.  Every other pair of numbers is divided in
/// binary64.  A boolean is no number here: every other pair gives a missing
/// cell.
pub open spec fn quotient(lhs: CellValue, rhs: CellValue) -> CellValue {
    match (lhs, rhs) {
        (CellValue::Int(a), CellValue::Int(b)) => CellValue::Int(signed_quotient(a, b)),
        (CellValue::UInt(a), CellValue::UInt(b)) => CellValue::UInt(
            if b == 0 {
                0
            } else {
                a / b
            },
        ),
        _ => if let (Some(x), Some(y)) = (operand_of(lhs), operand_of(rhs)) {
            CellValue::Float(float_quotient(x, y))
        } else {
            CellValue::NA
        },
    }
}

/// Whether the pair is an integer division by zero.
pub open spec fn divides_by_zero(lhs: CellValue, rhs: CellValue) -> bool {
    match (lhs, rhs) {
        (CellValue::Int(_), CellValue::Int(b)) => b == 0,
        (CellValue::UInt(_), CellValue::UInt(b)) => b == 0,
        _ => false,
    }
}

/// An empty text stays empty however often it is written.
pub proof fn lemma_repeated_empty(n: nat)
    ensures
        repeated(Seq::empty(), n) == Seq::<char>::empty(),
    decreases n,
{
    if n > 0 {
        lemma_repeated_empty((n - 1) as nat);
        assert(Seq::<char>::empty() + Seq::<char>::empty() == Seq::<char>::empty());
    }
}

/// The quotient of two signed integers, rounded toward zero.
pub fn divide_signed(a: i64, b: i64) -> (r: i64)
    requires
        b != 0,
    ensures
        r == signed_quotient(a, b),
{
    if a == i64::MIN && b == -1 {
        return i64::MIN;
    }
    let x: u64 = if a < 0 { (-(a + 1)) as u64 + 1 } else { a as u64 };
    let y: u64 = if b < 0 { (-(b + 1)) as u64 + 1 } else { b as u64 };
    let magnitude: u64 = x / y;
    assert(magnitude <= x);
    if (a < 0) == (b < 0) {
        assert(magnitude <= i64::MAX) by {
            if a < 0 {
                assert(y >= 2 || x < 0x8000_0000_0000_0000);
                assert(x / y <= i64::MAX) by (nonlinear_arith)
                    requires
                        x <= 0x8000_0000_0000_0000,
                        y >= 1,
                        y >= 2 || x < 0x8000_0000_0000_0000,
                ;
            }
        }
        magnitude as i64
    } else if magnitude == 0x8000_0000_0000_0000 {
        i64::MIN
    } else {
        -(magnitude as i64)
    }
}

/// The text written `count` times over.
pub fn repeat_text(text: &str, count: u64) -> (r: String)
    ensures
        r@ == repeated(text@, count as nat),
{
    let mut out = String::new();
    if text.unicode_len() == 0 {
        proof {
            assert(text@ == Seq::<char>::empty());
            lemma_repeated_empty(count as nat);
        }
        return out;
    }
    let mut i: u64 = 0;
    while i < count
        invariant
            i <= count,
            out@ == repeated(text@, i as nat),
        decreases count - i,
    {
        out.append(text);
        i += 1;
    }
    out
}

/// The signed integer in a cell.
fn signed(cell: &DCell) -> (r: Option<i64>)
    ensures
        r == signed_of(cell@),
{
    match cell {
        DCell::Int(n) => Some(*n),
        DCell::Bool(b) => Some(if *b { 1 } else { 0 }),
        _ => None,
    }
}

/// The unsigned integer in a cell.
fn unsigned(cell: &DCell) -> (r: Option<u64>)
    ensures
        r == unsigned_of(cell@),
{
    match cell {
        DCell::UInt(n) => Some(*n),
        DCell::Bool(b) => Some(if *b { 1 } else { 0 }),
        _ => None,
    }
}

/// The number in a numeric cell as a binary64 value.
fn operand(cell: &DCell) -> (r: Option<u64>)
    ensures
        r == operand_of(cell@),
{
    match cell {
        DCell::Int(n) => Some(widen_signed(*n)),
        DCell::UInt(n) => Some(widen_unsigned(*n)),
        DCell::Float(bits) => Some(*bits),
        _ => None,
    }
}

/// The number in a cell as a binary64 value, a boolean counting as 0 or 1.
fn binary64(cell: &DCell) -> (r: Option<u64>)
    ensures
        r == binary64_of(cell@),
{
    match cell {
        DCell::Bool(b) => Some(bool_bits(*b)),
        _ => operand(cell),
    }
}

/// How often a cell has a text written.
fn count(cell: &DCell) -> (r: Option<u64>)
    ensures
        r is Some == count_of(cell@) is Some,
        r is Some ==> r->0 as nat == count_of(cell@)->0,
{
    match cell {
        DCell::Int(n) => Some(if *n < 0 { 0 } else { *n as u64 }),
        DCell::UInt(n) => Some(*n),
        DCell::Float(bits) => Some(truncate_unsigned_bits(*bits)),
        DCell::Bool(b) => Some(if *b { 1 } else { 0 }),
        _ => None,
    }
}

/// The text of a character or text cell written `times` over.
fn repeat_cell(cell: &DCell, times: u64) -> (r: DCell)
    requires
        is_textual(cell@),
    ensures
        r@ == CellValue::Text(repeated(text_of(cell@), times as nat)),
{
    match cell {
        DCell::Char(ch) => DCell::Text(repeat_text(char_to_string(*ch).as_str(), times)),
        DCell::Text(s) => DCell::Text(repeat_text(s.as_str(), times)),
        _ => DCell::NA,
    }
}

/// The texts of the two cells joined.
fn join(lhs: &DCell, rhs: &DCell) -> (r: Outcome)
    ensures
        r@ == joined(lhs@, rhs@),
{
    match (lhs, rhs) {
        (DCell::Float(_), DCell::Float(_)) => Outcome::Done(DCell::NA),
        (DCell::Float(bits), _) => match rhs.to_string() {
            Some(after) => Outcome::Float(FloatOp::Render(String::new(), *bits, after)),
            None => Outcome::Done(DCell::NA),
        },
        (_, DCell::Float(bits)) => match lhs.to_string() {
            Some(before) => Outcome::Float(FloatOp::Render(before, *bits, String::new())),
            None => Outcome::Done(DCell::NA),
        },
        _ => match (lhs.to_string(), rhs.to_string()) {
            (Some(before), Some(after)) => Outcome::Done(DCell::Text(before.concat(after.as_str()))),
            _ => Outcome::Done(DCell::NA),
        },
    }
}

/// Whether the cell is a character or a text.
fn textual(cell: &DCell) -> (r: bool)
    ensures
        r == is_textual(cell@),
{
    match cell {
        DCell::Char(_) | DCell::Text(_) => true,
        _ => false,
    }
}

impl DCell {
    /// The sum of the two cells.  Where a binary64 number is joined to a
    /// text, the text of the number is the caller's to print.
    pub fn add(self, other: DCell) -> (r: Outcome)
        ensures
            r@ == sum(self@, other@),
    {
        if let (DCell::Bool(a), DCell::Bool(b)) = (&self, &other) {
            return Outcome::Done(DCell::Bool(*a && *b));
        }
        if let (Some(a), Some(b)) = (signed(&self), signed(&other)) {
            return Outcome::Done(DCell::Int(a.wrapping_add(b)));
        }
        if let (Some(a), Some(b)) = (unsigned(&self), unsigned(&other)) {
            return Outcome::Done(DCell::UInt(a.wrapping_add(b)));
        }
        if let (Some(x), Some(y)) = (binary64(&self), binary64(&other)) {
            return Outcome::Done(DCell::Float(add_bits(x, y)));
        }
        if (textual(&self) || textual(&other)) && !self.is_nan() && !other.is_nan() {
            join(&self, &other)
        } else {
            Outcome::Done(DCell::NA)
        }
    }

    /// The difference of the two cells.
    pub fn sub(self, other: DCell) -> (r: DCell)
        ensures
            r@ == difference(self@, other@),
    {
        if let (DCell::Bool(a), DCell::Bool(b)) = (&self, &other) {
            return DCell::Bool(*a || *b);
        }
        if let (Some(a), Some(b)) = (signed(&self), signed(&other)) {
            return DCell::Int(a.wrapping_sub(b));
        }
        if let (Some(x), Some(y)) = (binary64(&self), binary64(&other)) {
            return DCell::Float(subtract_bits(x, y));
        }
        DCell::NA
    }

    /// The product of the two cells.
    pub fn mul(self, other: DCell) -> (r: DCell)
        ensures
            r@ == product(self@, other@),
    {
        if let (DCell::Bool(a), DCell::Bool(b)) = (&self, &other) {
            return DCell::Bool(*a != *b);
        }
        if let (Some(a), Some(b)) = (signed(&self), signed(&other)) {
            return DCell::Int(a.wrapping_mul(b));
        }
        if let (Some(a), DCell::UInt(b)) = (unsigned(&self), &other) {
            return DCell::UInt(a.wrapping_mul(*b));
        }
        if let (Some(x), Some(y)) = (binary64(&self), binary64(&other)) {
            return DCell::Float(multiply_bits(x, y));
        }
        if textual(&self) {
            if let Some(times) = count(&other) {
                return repeat_cell(&self, times);
            }
        }
        if textual(&other) {
            if let Some(times) = count(&self) {
                return repeat_cell(&other, times);
            }
        }
        DCell::NA
    }

    /// The quotient of the two cells.  An integer is not divided by the
    /// integer zero.
    pub fn div(self, other: DCell) -> (r: DCell)
        requires
            !divides_by_zero(self@, other@),
        ensures
            r@ == quotient(self@, other@),
    {
        match (&self, &other) {
            (DCell::Int(a), DCell::Int(b)) => DCell::Int(divide_signed(*a, *b)),
            (DCell::UInt(a), DCell::UInt(b)) => DCell::UInt(*a / *b),
            _ => match (operand(&self), operand(&other)) {
                (Some(x), Some(y)) => DCell::Float(divide_bits(x, y)),
                _ => DCell::NA,
            },
        }
    }

    /// Adds `other` to the cell in place.  Where the text of a binary64
    /// number is due the cell stays as it is and the conversion is returned.
    pub fn add_assign(&mut self, other: DCell) -> (r: Option<FloatOp>)
        ensures
            match sum(old(self)@, other@) {
                OutcomeValue::Done(c) => r is None && final(self)@ == c,
                OutcomeValue::Float(op) => r is Some && r->0@ == op && final(self)@ == old(self)@,
            },
    {
        match self.clone().add(other) {
            Outcome::Done(cell) => {
                *self = cell;
                None
            },
            Outcome::Float(op) => Some(op),
        }
    }

    /// Subtracts `other` from the cell in place.
    pub fn sub_assign(&mut self, other: DCell)
        ensures
            final(self)@ == difference(old(self)@, other@),
    {
        *self = self.clone().sub(other);
    }

    /// Multiplies the cell by `other` in place.
    pub fn mul_assign(&mut self, other: DCell)
        ensures
            final(self)@ == product(old(self)@, other@),
    {
        *self = self.clone().mul(other);
    }

    /// Divides the cell by `other` in place.  An integer is not divided by
    /// the integer zero.
    pub fn div_assign(&mut self, other: DCell)
        requires
            !divides_by_zero(old(self)@, other@),
        ensures
            final(self)@ == quotient(old(self)@, other@),
    {
        *self = self.clone().div(other);
    }
}

impl vstd::std_specs::ops::AddSpecImpl for DCell {
    /// The result is stated over the models of the cells, at `add`.
    open spec fn obeys_add_spec() -> bool {
        false
    }

    open spec fn add_req(self, rhs: DCell) -> bool {
        true
    }

    open spec fn add_spec(self, rhs: DCell) -> Outcome {
        arbitrary()
    }
}

impl core::ops::Add for DCell {
    type Output = Outcome;

    /// The sum of the two cells.
    fn add(self, rhs: DCell) -> (r: Outcome)
        ensures
            r@ == sum(self@, rhs@),
    {
        DCell::add(self, rhs)
    }
}

impl vstd::std_specs::ops::SubSpecImpl for DCell {
    /// The result is stated over the models of the cells, at `sub`.
    open spec fn obeys_sub_spec() -> bool {
        false
    }

    open spec fn sub_req(self, rhs: DCell) -> bool {
        true
    }

    open spec fn sub_spec(self, rhs: DCell) -> DCell {
        arbitrary()
    }
}

impl core::ops::Sub for DCell {
    type Output = DCell;

    /// The difference of the two cells.
    fn sub(self, rhs: DCell) -> (r: DCell)
        ensures
            r@ == difference(self@, rhs@),
    {
        DCell::sub(self, rhs)
    }
}

impl vstd::std_specs::ops::MulSpecImpl for DCell {
    /// The result is stated over the models of the cells, at `mul`.
    open spec fn obeys_mul_spec() -> bool {
        false
    }

    open spec fn mul_req(self, rhs: DCell) -> bool {
        true
    }

    open spec fn mul_spec(self, rhs: DCell) -> DCell {
        arbitrary()
    }
}

impl core::ops::Mul for DCell {
    type Output = DCell;

    /// The product of the two cells.
    fn mul(self, rhs: DCell) -> (r: DCell)
        ensures
            r@ == product(self@, rhs@),
    {
        DCell::mul(self, rhs)
    }
}

impl vstd::std_specs::ops::DivSpecImpl for DCell {
    /// The result is stated over the models of the cells, at `div`.
    open spec fn obeys_div_spec() -> bool {
        false
    }

    open spec fn div_req(self, rhs: DCell) -> bool {
        !divides_by_zero(self@, rhs@)
    }

    open spec fn div_spec(self, rhs: DCell) -> DCell {
        arbitrary()
    }
}

impl core::ops::Div for DCell {
    type Output = DCell;

    /// The quotient of the two cells.  An integer is not divided by the
    /// integer zero.
    fn div(self, rhs: DCell) -> (r: DCell)
        ensures
            r@ == quotient(self@, rhs@),
    {
        DCell::div(self, rhs)
    }
}

} // verus!
