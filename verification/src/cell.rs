//! The cell: one scalar value tagged with its kind.

use vstd::prelude::*;
use crate::dtype::{kind_of_data_type, DataType, DType};
use crate::float::{bool_bits, is_nonzero, truncate_bits, widen_signed, widen_unsigned};
use crate::float::{float_nonzero, float_of_bool, float_of_int, float_of_nat, float_truncated};
use crate::float::{FloatOp, FloatOpValue, Outcome, OutcomeValue};
use crate::syntax::{float_syntax, is_float_text};
use crate::text::{bool_text, decimal_digits, int_text, missing_text};
use crate::text::{parse_bool, parse_char, parse_signed, parse_unsigned};
use crate::text::{bool_to_string, char_to_string, chars_of, signed_to_string, unsigned_to_string};
use crate::text::{read_bool, read_char, read_signed, read_unsigned};

verus! {

/// A cell that holds one scalar of any kind, or nothing.
#[derive(Debug)]
pub enum DCell {
    /// A signed integer.
    Int(i64),
    /// An unsigned integer.
    UInt(u64),
    /// A binary64 number, as its bit pattern.
    Float(u64),
    /// A character.
    Char(char),
    /// A boolean.
    Bool(bool),
    /// A text.
    Text(String),
    /// A missing or invalid entry.
    NA,
}

/// The model of a cell.
pub enum CellValue {
    Int(i64),
    UInt(u64),
    Float(u64),
    Char(char),
    Bool(bool),
    Text(Seq<char>),
    NA,
}

impl View for DCell {
    type V = CellValue;

    open spec fn view(&self) -> CellValue {
        match self {
            DCell::Int(n) => CellValue::Int(*n),
            DCell::UInt(n) => CellValue::UInt(*n),
            DCell::Float(bits) => CellValue::Float(*bits),
            DCell::Char(c) => CellValue::Char(*c),
            DCell::Bool(b) => CellValue::Bool(*b),
            DCell::Text(s) => CellValue::Text(s@),
            DCell::NA => CellValue::NA,
        }
    }
}

/// The kind of a cell: that of its variant.
pub open spec fn kind_of(c: CellValue) -> DType {
    match c {
        CellValue::Int(_) => DType::Int,
        CellValue::UInt(_) => DType::UInt,
        CellValue::Float(_) => DType::Float,
        CellValue::Char(_) => DType::Char,
        CellValue::Bool(_) => DType::Bool,
        CellValue::Text(_) => DType::Text,
        CellValue::NA => DType::NA,
    }
}

/// The data type of a cell: that of the kind of the cell in 64 bits.
pub open spec fn data_type_of(c: CellValue) -> DataType {
    match c {
        CellValue::Int(_) => DataType::Long,
        CellValue::UInt(_) => DataType::ULong,
        CellValue::Float(_) => DataType::Double,
        CellValue::Char(_) => DataType::Character,
        CellValue::Bool(_) => DataType::Boolean,
        CellValue::Text(_) => DataType::Text,
        CellValue::NA => DataType::NA,
    }
}

/// The name of the type that holds the value of a cell.
pub open spec fn internal_name(c: CellValue) -> Seq<char> {
    match c {
        CellValue::Int(_) => "i64"@,
        CellValue::UInt(_) => "u64"@,
        CellValue::Float(_) => "f64"@,
        CellValue::Char(_) => "char"@,
        CellValue::Bool(_) => "bool"@,
        CellValue::Text(_) => "String"@,
        CellValue::NA => "na"@,
    }
}

/// The text of a cell.  A binary64 cell has none here: its text is the
/// caller's to print.
pub open spec fn display_text(c: CellValue) -> Option<Seq<char>> {
    match c {
        CellValue::Int(n) => Some(int_text(n as int)),
        CellValue::UInt(n) => Some(decimal_digits(n as nat)),
        CellValue::Float(_) => None,
        CellValue::Char(ch) => Some(seq![ch]),
        CellValue::Bool(b) => Some(bool_text(b)),
        CellValue::Text(s) => Some(s),
        CellValue::NA => Some(missing_text()),
    }
}

/// The cell that a text is read as: an unsigned integer if it writes one,
/// else a signed integer, else a binary64 number, else a boolean, else a
/// single character, else the text itself.  Which binary64 number a text
/// writes is the caller's to find out.
pub open spec fn parsed(s: Seq<char>) -> OutcomeValue {
    if let Some(n) = parse_unsigned(s) {
        OutcomeValue::Done(CellValue::UInt(n))
    } else if let Some(n) = parse_signed(s) {
        OutcomeValue::Done(CellValue::Int(n))
    } else if float_syntax(s) {
        OutcomeValue::Float(FloatOpValue::Parse(s))
    } else {
        OutcomeValue::Done(parsed_otherwise(s))
    }
}

/// The cell that a text is read as when it writes no number.
pub open spec fn parsed_otherwise(s: Seq<char>) -> CellValue {
    if let Some(b) = parse_bool(s) {
        CellValue::Bool(b)
    } else if let Some(c) = parse_char(s) {
        CellValue::Char(c)
    } else {
        CellValue::Text(s)
    }
}

/// The conversion of a cell to a kind.
///
/// A cell of the target kind stays as it is, and a missing cell stays missing.
/// To `Int`: a binary64 number is cut off toward zero (to zero if it is a
/// NaN, to the end of the range if it lies beyond), a boolean is 0 or 1, a
/// character is its code point, a text is parsed.  To `UInt`: a boolean, a
/// character, a parsed text; a signed integer or a binary64 number does not
/// convert.  To `Float`: every integer and code point, rounded to the nearest
/// binary64 value, a boolean (0 or 1), and a text that writes a number.  To `Bool`: a
/// number is tested against zero, a text is parsed.  To `Char`: a text of one
/// character.  To `Text`: the text of the cell.  Everything else, and every
/// conversion to `NA` or `Mixed`, is missing.
pub open spec fn converted(c: CellValue, target: DType) -> OutcomeValue {
    match (target, c) {
        (DType::Int, CellValue::Int(n)) => OutcomeValue::Done(c),
        (DType::Int, CellValue::Float(bits)) => OutcomeValue::Done(CellValue::Int(float_truncated(bits))),
        (DType::Int, CellValue::Bool(b)) => OutcomeValue::Done(CellValue::Int(if b { 1i64 } else { 0i64 })),
        (DType::Int, CellValue::Char(ch)) => OutcomeValue::Done(CellValue::Int(ch as i64)),
        (DType::Int, CellValue::Text(s)) => OutcomeValue::Done(
            match parse_signed(s) {
                Some(n) => CellValue::Int(n),
                None => CellValue::NA,
            },
        ),
        (DType::UInt, CellValue::UInt(n)) => OutcomeValue::Done(c),
        (DType::UInt, CellValue::Bool(b)) => OutcomeValue::Done(CellValue::UInt(if b { 1u64 } else { 0u64 })),
        (DType::UInt, CellValue::Char(ch)) => OutcomeValue::Done(CellValue::UInt(ch as u64)),
        (DType::UInt, CellValue::Text(s)) => OutcomeValue::Done(
            match parse_unsigned(s) {
                Some(n) => CellValue::UInt(n),
                None => CellValue::NA,
            },
        ),
        (DType::Float, CellValue::Int(n)) => OutcomeValue::Done(CellValue::Float(float_of_int(n as int))),
        (DType::Float, CellValue::UInt(n)) => OutcomeValue::Done(CellValue::Float(float_of_nat(n as nat))),
        (DType::Float, CellValue::Float(bits)) => OutcomeValue::Done(c),
        (DType::Float, CellValue::Bool(b)) => OutcomeValue::Done(CellValue::Float(float_of_bool(b))),
        (DType::Float, CellValue::Char(ch)) => OutcomeValue::Done(
            CellValue::Float(float_of_nat(ch as nat)),
        ),
        (DType::Float, CellValue::Text(s)) => if float_syntax(s) {
            OutcomeValue::Float(FloatOpValue::Parse(s))
        } else {
            OutcomeValue::Done(CellValue::NA)
        },
        (DType::Bool, CellValue::Int(n)) => OutcomeValue::Done(CellValue::Bool(n != 0)),
        (DType::Bool, CellValue::UInt(n)) => OutcomeValue::Done(CellValue::Bool(n != 0)),
        (DType::Bool, CellValue::Float(bits)) => OutcomeValue::Done(CellValue::Bool(float_nonzero(bits))),
        (DType::Bool, CellValue::Bool(b)) => OutcomeValue::Done(c),
        (DType::Bool, CellValue::Text(s)) => OutcomeValue::Done(
            match parse_bool(s) {
                Some(b) => CellValue::Bool(b),
                None => CellValue::NA,
            },
        ),
        (DType::Char, CellValue::Char(ch)) => OutcomeValue::Done(c),
        (DType::Char, CellValue::Text(s)) => OutcomeValue::Done(
            match parse_char(s) {
                Some(ch) => CellValue::Char(ch),
                None => CellValue::NA,
            },
        ),
        (DType::Text, CellValue::Float(bits)) => OutcomeValue::Float(
            FloatOpValue::Render(Seq::empty(), bits, Seq::empty()),
        ),
        (DType::Text, CellValue::NA) => OutcomeValue::Done(CellValue::NA),
        (DType::Text, _) => OutcomeValue::Done(CellValue::Text(display_text(c).unwrap())),
        _ => OutcomeValue::Done(CellValue::NA),
    }
}

impl Clone for DCell {
    fn clone(&self) -> (r: Self)
        ensures
            r == *self,
    {
        match self {
            DCell::Int(n) => DCell::Int(*n),
            DCell::UInt(n) => DCell::UInt(*n),
            DCell::Float(bits) => DCell::Float(*bits),
            DCell::Char(c) => DCell::Char(*c),
            DCell::Bool(b) => DCell::Bool(*b),
            DCell::Text(s) => DCell::Text(s.clone()),
            DCell::NA => DCell::NA,
        }
    }
}

impl DCell {
    /// The kind of the cell.
    pub fn dtype(&self) -> (r: DType)
        ensures
            r == kind_of(self@),
    {
        match self {
            DCell::Int(_) => DType::Int,
            DCell::UInt(_) => DType::UInt,
            DCell::Float(_) => DType::Float,
            DCell::Char(_) => DType::Char,
            DCell::Bool(_) => DType::Bool,
            DCell::Text(_) => DType::Text,
            DCell::NA => DType::NA,
        }
    }

    /// The name of the type that holds the value of the cell: `String`,
    /// `i64`, `u64`, `f64`, `bool`, `char` or `na`.
    pub fn internal_type(&self) -> (r: &'static str)
        ensures
            r@ == internal_name(self@),
    {
        match self {
            DCell::Int(_) => "i64",
            DCell::UInt(_) => "u64",
            DCell::Float(_) => "f64",
            DCell::Char(_) => "char",
            DCell::Bool(_) => "bool",
            DCell::Text(_) => "String",
            DCell::NA => "na",
        }
    }

    /// The data type of the cell, which belongs to the kind of the cell.
    pub fn data_type(&self) -> (r: DataType)
        ensures
            r == data_type_of(self@),
            kind_of_data_type(r) == kind_of(self@),
    {
        match self {
            DCell::Int(_) => DataType::Long,
            DCell::UInt(_) => DataType::ULong,
            DCell::Float(_) => DataType::Double,
            DCell::Char(_) => DataType::Character,
            DCell::Bool(_) => DataType::Boolean,
            DCell::Text(_) => DataType::Text,
            DCell::NA => DataType::NA,
        }
    }

    /// Whether the cell is missing.
    pub fn is_nan(&self) -> (r: bool)
        ensures
            r == (self@ is NA),
    {
        match self {
            DCell::NA => true,
            _ => false,
        }
    }

    /// Reads a cell from a text.  A text of one digit is an unsigned integer,
    /// not a character: the integers are tried first.
    pub fn from_str(val: &str) -> (r: Outcome)
        ensures
            r@ == parsed(val@),
    {
        let chars = chars_of(val);
        if let Some(n) = read_unsigned(&chars) {
            return Outcome::Done(DCell::UInt(n));
        }
        if let Some(n) = read_signed(&chars) {
            return Outcome::Done(DCell::Int(n));
        }
        if is_float_text(&chars) {
            return Outcome::Float(FloatOp::Parse(String::from_str(val)));
        }
        if let Some(b) = read_bool(&chars) {
            Outcome::Done(DCell::Bool(b))
        } else if let Some(c) = read_char(&chars) {
            Outcome::Done(DCell::Char(c))
        } else {
            Outcome::Done(DCell::Text(String::from_str(val)))
        }
    }

    /// The text of the cell; `None` for a binary64 cell, and for no other.
    pub fn to_string(&self) -> (r: Option<String>)
        ensures
            r is Some == display_text(self@) is Some,
            r is Some ==> r->0@ == display_text(self@)->0,
    {
        match self {
            DCell::Int(n) => Some(signed_to_string(*n)),
            DCell::UInt(n) => Some(unsigned_to_string(*n)),
            DCell::Float(_) => None,
            DCell::Char(c) => Some(char_to_string(*c)),
            DCell::Bool(b) => Some(bool_to_string(*b)),
            DCell::Text(s) => Some(s.clone()),
            DCell::NA => {
                let mut out = char_to_string('N');
                crate::text::push_char(&mut out, 'A');
                assert(out@ == missing_text());
                Some(out)
            },
        }
    }

    /// The cell converted to `dtype`.
    pub fn convert_to(&self, dtype: DType) -> (r: Outcome)
        ensures
            r@ == converted(self@, dtype),
    {
        match dtype {
            DType::Int => match self {
                DCell::Int(n) => Outcome::Done(DCell::Int(*n)),
                DCell::Float(bits) => Outcome::Done(DCell::Int(truncate_bits(*bits))),
                DCell::Bool(b) => Outcome::Done(DCell::Int(if *b { 1 } else { 0 })),
                DCell::Char(ch) => Outcome::Done(DCell::Int(*ch as u32 as i64)),
                DCell::Text(s) => match read_signed(&chars_of(s.as_str())) {
                    Some(n) => Outcome::Done(DCell::Int(n)),
                    None => Outcome::Done(DCell::NA),
                },
                _ => Outcome::Done(DCell::NA),
            },
            DType::UInt => match self {
                DCell::UInt(n) => Outcome::Done(DCell::UInt(*n)),
                DCell::Bool(b) => Outcome::Done(DCell::UInt(if *b { 1 } else { 0 })),
                DCell::Char(ch) => Outcome::Done(DCell::UInt(*ch as u32 as u64)),
                DCell::Text(s) => match read_unsigned(&chars_of(s.as_str())) {
                    Some(n) => Outcome::Done(DCell::UInt(n)),
                    None => Outcome::Done(DCell::NA),
                },
                _ => Outcome::Done(DCell::NA),
            },
            DType::Float => match self {
                DCell::Int(n) => Outcome::Done(DCell::Float(widen_signed(*n))),
                DCell::UInt(n) => Outcome::Done(DCell::Float(widen_unsigned(*n))),
                DCell::Float(bits) => Outcome::Done(DCell::Float(*bits)),
                DCell::Bool(b) => Outcome::Done(DCell::Float(bool_bits(*b))),
                DCell::Char(ch) => Outcome::Done(DCell::Float(widen_unsigned(*ch as u32 as u64))),
                DCell::Text(s) => if is_float_text(&chars_of(s.as_str())) {
                    Outcome::Float(FloatOp::Parse(s.clone()))
                } else {
                    Outcome::Done(DCell::NA)
                },
                DCell::NA => Outcome::Done(DCell::NA),
            },
            DType::Bool => match self {
                DCell::Int(n) => Outcome::Done(DCell::Bool(*n != 0)),
                DCell::UInt(n) => Outcome::Done(DCell::Bool(*n != 0)),
                DCell::Float(bits) => Outcome::Done(DCell::Bool(is_nonzero(*bits))),
                DCell::Bool(b) => Outcome::Done(DCell::Bool(*b)),
                DCell::Text(s) => match read_bool(&chars_of(s.as_str())) {
                    Some(b) => Outcome::Done(DCell::Bool(b)),
                    None => Outcome::Done(DCell::NA),
                },
                _ => Outcome::Done(DCell::NA),
            },
            DType::Char => match self {
                DCell::Char(ch) => Outcome::Done(DCell::Char(*ch)),
                DCell::Text(s) => match read_char(&chars_of(s.as_str())) {
                    Some(ch) => Outcome::Done(DCell::Char(ch)),
                    None => Outcome::Done(DCell::NA),
                },
                _ => Outcome::Done(DCell::NA),
            },
            DType::Text => match self {
                DCell::Float(bits) => Outcome::Float(
                    FloatOp::Render(String::new(), *bits, String::new()),
                ),
                DCell::NA => Outcome::Done(DCell::NA),
                _ => match self.to_string() {
                    Some(s) => Outcome::Done(DCell::Text(s)),
                    None => Outcome::Done(DCell::NA),
                },
            },
            _ => Outcome::Done(DCell::NA),
        }
    }
}

} // verus!
