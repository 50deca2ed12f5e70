//! What the library asks of the values it takes: a kind, and for the
//! primitive ones a cell that holds them.

use vstd::prelude::*;
use crate::cell::{kind_of, CellValue, DCell};
use crate::dtype::DType;
use crate::convert::{answer_at, answer_values};
use crate::dtype::{converted_kind, kind_of_data_type, DataType};
use crate::error::RaccoonError;
use crate::float::{resolved, Answer};

verus! {

/// A conversion that may fail.
pub trait TryFrom<T>: Sized {
    /// What is returned where the conversion fails.
    type Error;

    /// The result of the conversion.
    spec fn tried(val: T) -> Result<Self, Self::Error>;

    /// Performs the conversion.
    fn try_from(val: T) -> (r: Result<Self, Self::Error>)
        ensures
            r == Self::tried(val),
    ;
}

/// A value that has a kind.
pub trait Typed {
    /// The kind of the value.
    spec fn kind(&self) -> DType;

    /// The kind of the value.
    fn dtype(&self) -> (r: DType)
        ensures
            r == self.kind(),
    ;
}

/// A value that converts into another kind.
pub trait AsType: Typed {
    /// Converts the value to `dtype`, in place.  The answers settle the
    /// conversions between texts and binary64 values that this takes: where
    /// the value is a series, the answer at the index of a cell settles that
    /// cell; where it is a cell, the first answer settles it; a missing
    /// answer counts as `Invalid`.
    fn astype(&mut self, dtype: DType, answers: Vec<Answer>);
}

/// A primitive value: every value of the type has one kind, and a cell of
/// that kind holds it.
pub trait Primitive: Typed + Sized {
    /// The kind of every value of the type.
    spec fn primitive_kind() -> DType;

    /// The cell that holds the value.
    spec fn cell(self) -> CellValue;

    /// The cell that holds the value.
    fn into_cell(self) -> (r: DCell)
        ensures
            r@ == self.cell(),
            kind_of(r@) == Self::primitive_kind(),
            self.kind() == Self::primitive_kind(),
    ;

    /// A cell that holds the value, which stays with the caller.
    fn to_cell(&self) -> (r: DCell)
        ensures
            r@ == self.cell(),
    ;
}

impl Typed for i8 {
    open spec fn kind(&self) -> DType {
        DType::Int
    }

    fn dtype(&self) -> DType {
        DType::Int
    }
}

impl Primitive for i8 {
    open spec fn primitive_kind() -> DType {
        DType::Int
    }

    open spec fn cell(self) -> CellValue {
        CellValue::Int(self as i64)
    }

    fn into_cell(self) -> DCell {
        DCell::Int(self as i64)
    }

    fn to_cell(&self) -> DCell {
        DCell::Int(*self as i64)
    }
}

impl Typed for i16 {
    open spec fn kind(&self) -> DType {
        DType::Int
    }

    fn dtype(&self) -> DType {
        DType::Int
    }
}

impl Primitive for i16 {
    open spec fn primitive_kind() -> DType {
        DType::Int
    }

    open spec fn cell(self) -> CellValue {
        CellValue::Int(self as i64)
    }

    fn into_cell(self) -> DCell {
        DCell::Int(self as i64)
    }

    fn to_cell(&self) -> DCell {
        DCell::Int(*self as i64)
    }
}

impl Typed for i32 {
    open spec fn kind(&self) -> DType {
        DType::Int
    }

    fn dtype(&self) -> DType {
        DType::Int
    }
}

impl Primitive for i32 {
    open spec fn primitive_kind() -> DType {
        DType::Int
    }

    open spec fn cell(self) -> CellValue {
        CellValue::Int(self as i64)
    }

    fn into_cell(self) -> DCell {
        DCell::Int(self as i64)
    }

    fn to_cell(&self) -> DCell {
        DCell::Int(*self as i64)
    }
}

impl Typed for i64 {
    open spec fn kind(&self) -> DType {
        DType::Int
    }

    fn dtype(&self) -> DType {
        DType::Int
    }
}

impl Primitive for i64 {
    open spec fn primitive_kind() -> DType {
        DType::Int
    }

    open spec fn cell(self) -> CellValue {
        CellValue::Int(self as i64)
    }

    fn into_cell(self) -> DCell {
        DCell::Int(self)
    }

    fn to_cell(&self) -> DCell {
        DCell::Int(*self)
    }
}

impl Typed for u8 {
    open spec fn kind(&self) -> DType {
        DType::UInt
    }

    fn dtype(&self) -> DType {
        DType::UInt
    }
}

impl Primitive for u8 {
    open spec fn primitive_kind() -> DType {
        DType::UInt
    }

    open spec fn cell(self) -> CellValue {
        CellValue::UInt(self as u64)
    }

    fn into_cell(self) -> DCell {
        DCell::UInt(self as u64)
    }

    fn to_cell(&self) -> DCell {
        DCell::UInt(*self as u64)
    }
}

impl Typed for u16 {
    open spec fn kind(&self) -> DType {
        DType::UInt
    }

    fn dtype(&self) -> DType {
        DType::UInt
    }
}

impl Primitive for u16 {
    open spec fn primitive_kind() -> DType {
        DType::UInt
    }

    open spec fn cell(self) -> CellValue {
        CellValue::UInt(self as u64)
    }

    fn into_cell(self) -> DCell {
        DCell::UInt(self as u64)
    }

    fn to_cell(&self) -> DCell {
        DCell::UInt(*self as u64)
    }
}

impl Typed for u32 {
    open spec fn kind(&self) -> DType {
        DType::UInt
    }

    fn dtype(&self) -> DType {
        DType::UInt
    }
}

impl Primitive for u32 {
    open spec fn primitive_kind() -> DType {
        DType::UInt
    }

    open spec fn cell(self) -> CellValue {
        CellValue::UInt(self as u64)
    }

    fn into_cell(self) -> DCell {
        DCell::UInt(self as u64)
    }

    fn to_cell(&self) -> DCell {
        DCell::UInt(*self as u64)
    }
}

impl Typed for u64 {
    open spec fn kind(&self) -> DType {
        DType::UInt
    }

    fn dtype(&self) -> DType {
        DType::UInt
    }
}

impl Primitive for u64 {
    open spec fn primitive_kind() -> DType {
        DType::UInt
    }

    open spec fn cell(self) -> CellValue {
        CellValue::UInt(self as u64)
    }

    fn into_cell(self) -> DCell {
        DCell::UInt(self)
    }

    fn to_cell(&self) -> DCell {
        DCell::UInt(*self)
    }
}

impl Typed for bool {
    open spec fn kind(&self) -> DType {
        DType::Bool
    }

    fn dtype(&self) -> DType {
        DType::Bool
    }
}

impl Primitive for bool {
    open spec fn primitive_kind() -> DType {
        DType::Bool
    }

    open spec fn cell(self) -> CellValue {
        CellValue::Bool(self)
    }

    fn into_cell(self) -> DCell {
        DCell::Bool(self)
    }

    fn to_cell(&self) -> DCell {
        DCell::Bool(*self)
    }
}

impl Typed for char {
    open spec fn kind(&self) -> DType {
        DType::Char
    }

    fn dtype(&self) -> DType {
        DType::Char
    }
}

impl Primitive for char {
    open spec fn primitive_kind() -> DType {
        DType::Char
    }

    open spec fn cell(self) -> CellValue {
        CellValue::Char(self)
    }

    fn into_cell(self) -> DCell {
        DCell::Char(self)
    }

    fn to_cell(&self) -> DCell {
        DCell::Char(*self)
    }
}

impl Typed for String {
    open spec fn kind(&self) -> DType {
        DType::Text
    }

    fn dtype(&self) -> DType {
        DType::Text
    }
}

impl Primitive for String {
    open spec fn primitive_kind() -> DType {
        DType::Text
    }

    open spec fn cell(self) -> CellValue {
        CellValue::Text(self@)
    }

    fn into_cell(self) -> DCell {
        DCell::Text(self)
    }

    fn to_cell(&self) -> DCell {
        DCell::Text(self.clone())
    }
}

impl Typed for DType {
    open spec fn kind(&self) -> DType {
        *self
    }

    fn dtype(&self) -> DType {
        *self
    }
}

impl AsType for DType {
    /// Replaces the kind by what it becomes under a conversion to `dtype`.
    fn astype(&mut self, dtype: DType, answers: Vec<Answer>)
        ensures
            *final(self) == converted_kind(*old(self), dtype),
    {
        let source = *self;
        *self = match (source, dtype) {
            (DType::Int, DType::Int) | (DType::Float, DType::Int) | (DType::Bool, DType::Int)
            | (DType::Char, DType::Int) => DType::Int,
            (DType::UInt, DType::UInt) | (DType::Bool, DType::UInt) | (DType::Char, DType::UInt) => DType::UInt,
            (DType::Int, DType::Float) | (DType::UInt, DType::Float) | (DType::Float, DType::Float)
            | (DType::Bool, DType::Float) | (DType::Char, DType::Float) => DType::Float,
            (DType::Int, DType::Bool) | (DType::UInt, DType::Bool) | (DType::Float, DType::Bool)
            | (DType::Bool, DType::Bool) => DType::Bool,
            (DType::Char, DType::Char) => DType::Char,
            (DType::Text, DType::Text) => DType::Text,
            (DType::Text, _) => match dtype {
                DType::NA | DType::Mixed => DType::NA,
                _ => DType::Mixed,
            },
            (_, DType::Text) => match source {
                DType::NA | DType::Mixed => DType::NA,
                _ => DType::Text,
            },
            _ => DType::NA,
        };
    }
}

impl AsType for DCell {
    /// Replaces the cell by what it converts to.
    fn astype(&mut self, dtype: DType, answers: Vec<Answer>)
        ensures
            final(self)@ == resolved(
                crate::cell::converted(old(self)@, dtype),
                answer_at(answer_values(answers@), 0),
            ),
    {
        let answer = if answers.len() > 0 {
            answers[0].clone()
        } else {
            Answer::Invalid
        };
        *self = self.convert_to(dtype).resolve(answer);
    }
}

impl Typed for DataType {
    open spec fn kind(&self) -> DType {
        kind_of_data_type(*self)
    }

    fn dtype(&self) -> DType {
        DataType::dtype(self)
    }
}

impl Typed for DCell {
    open spec fn kind(&self) -> DType {
        kind_of(self@)
    }

    fn dtype(&self) -> DType {
        DCell::dtype(self)
    }
}

impl TryFrom<DCell> for i64 {
    type Error = RaccoonError;

    open spec fn tried(val: DCell) -> Result<i64, RaccoonError> {
        match val {
            DCell::Int(x) => Ok(x),
            _ => Err(RaccoonError::ConversionError),
        }
    }

    fn try_from(val: DCell) -> (r: Result<i64, RaccoonError>) {
        match val {
            DCell::Int(x) => Ok(x),
            _ => Err(RaccoonError::ConversionError),
        }
    }
}

impl TryFrom<DCell> for u64 {
    type Error = RaccoonError;

    open spec fn tried(val: DCell) -> Result<u64, RaccoonError> {
        match val {
            DCell::UInt(x) => Ok(x),
            _ => Err(RaccoonError::ConversionError),
        }
    }

    fn try_from(val: DCell) -> (r: Result<u64, RaccoonError>) {
        match val {
            DCell::UInt(x) => Ok(x),
            _ => Err(RaccoonError::ConversionError),
        }
    }
}

impl TryFrom<DCell> for char {
    type Error = RaccoonError;

    open spec fn tried(val: DCell) -> Result<char, RaccoonError> {
        match val {
            DCell::Char(x) => Ok(x),
            _ => Err(RaccoonError::ConversionError),
        }
    }

    fn try_from(val: DCell) -> (r: Result<char, RaccoonError>) {
        match val {
            DCell::Char(x) => Ok(x),
            _ => Err(RaccoonError::ConversionError),
        }
    }
}

impl TryFrom<DCell> for bool {
    type Error = RaccoonError;

    open spec fn tried(val: DCell) -> Result<bool, RaccoonError> {
        match val {
            DCell::Bool(x) => Ok(x),
            _ => Err(RaccoonError::ConversionError),
        }
    }

    fn try_from(val: DCell) -> (r: Result<bool, RaccoonError>) {
        match val {
            DCell::Bool(x) => Ok(x),
            _ => Err(RaccoonError::ConversionError),
        }
    }
}

impl TryFrom<DCell> for String {
    type Error = RaccoonError;

    open spec fn tried(val: DCell) -> Result<String, RaccoonError> {
        match val {
            DCell::Text(x) => Ok(x),
            _ => Err(RaccoonError::ConversionError),
        }
    }

    fn try_from(val: DCell) -> (r: Result<String, RaccoonError>) {
        match val {
            DCell::Text(x) => Ok(x),
            _ => Err(RaccoonError::ConversionError),
        }
    }
}

impl vstd::std_specs::convert::FromSpecImpl<i8> for DCell {
    open spec fn obeys_from_spec() -> bool {
        true
    }

    open spec fn from_spec(val: i8) -> DCell {
        DCell::Int(val as i64)
    }
}

impl From<i8> for DCell {
    fn from(val: i8) -> (r: DCell) {
        DCell::Int(val as i64)
    }
}

impl vstd::std_specs::convert::FromSpecImpl<i16> for DCell {
    open spec fn obeys_from_spec() -> bool {
        true
    }

    open spec fn from_spec(val: i16) -> DCell {
        DCell::Int(val as i64)
    }
}

impl From<i16> for DCell {
    fn from(val: i16) -> (r: DCell) {
        DCell::Int(val as i64)
    }
}

impl vstd::std_specs::convert::FromSpecImpl<i32> for DCell {
    open spec fn obeys_from_spec() -> bool {
        true
    }

    open spec fn from_spec(val: i32) -> DCell {
        DCell::Int(val as i64)
    }
}

impl From<i32> for DCell {
    fn from(val: i32) -> (r: DCell) {
        DCell::Int(val as i64)
    }
}

impl vstd::std_specs::convert::FromSpecImpl<i64> for DCell {
    open spec fn obeys_from_spec() -> bool {
        true
    }

    open spec fn from_spec(val: i64) -> DCell {
        DCell::Int(val as i64)
    }
}

impl From<i64> for DCell {
    fn from(val: i64) -> (r: DCell) {
        DCell::Int(val)
    }
}

impl vstd::std_specs::convert::FromSpecImpl<u8> for DCell {
    open spec fn obeys_from_spec() -> bool {
        true
    }

    open spec fn from_spec(val: u8) -> DCell {
        DCell::UInt(val as u64)
    }
}

impl From<u8> for DCell {
    fn from(val: u8) -> (r: DCell) {
        DCell::UInt(val as u64)
    }
}

impl vstd::std_specs::convert::FromSpecImpl<u16> for DCell {
    open spec fn obeys_from_spec() -> bool {
        true
    }

    open spec fn from_spec(val: u16) -> DCell {
        DCell::UInt(val as u64)
    }
}

impl From<u16> for DCell {
    fn from(val: u16) -> (r: DCell) {
        DCell::UInt(val as u64)
    }
}

impl vstd::std_specs::convert::FromSpecImpl<u32> for DCell {
    open spec fn obeys_from_spec() -> bool {
        true
    }

    open spec fn from_spec(val: u32) -> DCell {
        DCell::UInt(val as u64)
    }
}

impl From<u32> for DCell {
    fn from(val: u32) -> (r: DCell) {
        DCell::UInt(val as u64)
    }
}

impl vstd::std_specs::convert::FromSpecImpl<u64> for DCell {
    open spec fn obeys_from_spec() -> bool {
        true
    }

    open spec fn from_spec(val: u64) -> DCell {
        DCell::UInt(val as u64)
    }
}

impl From<u64> for DCell {
    fn from(val: u64) -> (r: DCell) {
        DCell::UInt(val)
    }
}

impl vstd::std_specs::convert::FromSpecImpl<char> for DCell {
    open spec fn obeys_from_spec() -> bool {
        true
    }

    open spec fn from_spec(val: char) -> DCell {
        DCell::Char(val)
    }
}

impl From<char> for DCell {
    fn from(val: char) -> (r: DCell) {
        DCell::Char(val)
    }
}

impl vstd::std_specs::convert::FromSpecImpl<bool> for DCell {
    open spec fn obeys_from_spec() -> bool {
        true
    }

    open spec fn from_spec(val: bool) -> DCell {
        DCell::Bool(val)
    }
}

impl From<bool> for DCell {
    fn from(val: bool) -> (r: DCell) {
        DCell::Bool(val)
    }
}

impl vstd::std_specs::convert::FromSpecImpl<String> for DCell {
    open spec fn obeys_from_spec() -> bool {
        true
    }

    open spec fn from_spec(val: String) -> DCell {
        DCell::Text(val)
    }
}

impl From<String> for DCell {
    fn from(val: String) -> (r: DCell) {
        DCell::Text(val)
    }
}

impl<'a> vstd::std_specs::convert::FromSpecImpl<&'a str> for DCell {
    /// The conversion is stated over the model of its result, at `from`.
    open spec fn obeys_from_spec() -> bool {
        false
    }

    open spec fn from_spec(val: &'a str) -> DCell {
        arbitrary()
    }
}

impl<'a> From<&'a str> for DCell {
    /// The text cell that holds the given text.
    fn from(val: &'a str) -> (r: DCell)
        ensures
            r@ == CellValue::Text(val@),
    {
        DCell::Text(String::from_str(val))
    }
}

} // verus!
