//! The kind of a value.

use vstd::prelude::*;

verus! {

/// The kind of a cell or of a series.
#[derive(Debug, Clone, Copy, PartialEq, Eq, Structural)]
pub enum DType {
    /// Signed integer.
    Int,
    /// Unsigned integer.
    UInt,
    /// Binary64 number.
    Float,
    /// Character.
    Char,
    /// Boolean.
    Bool,
    /// Text.
    Text,
    /// Missing or invalid.
    NA,
    /// Several kinds together.
    Mixed,
}

/// The kind of a value together with the width that it is stored in.  A cell
/// stores every integer and every binary64 number in 64 bits, so that the
/// narrow forms name no cell; each of them stands for the kind it belongs to.
#[derive(Debug, Clone, Copy, PartialEq, Eq, Structural)]
pub enum DataType {
    /// Text.
    Text,
    /// Signed integer of 32 bits.
    Integer,
    /// Unsigned integer of 32 bits.
    UInteger,
    /// Signed integer of 64 bits.
    Long,
    /// Unsigned integer of 64 bits.
    ULong,
    /// Floating point number of 32 bits.
    Float,
    /// Floating point number of 64 bits.
    Double,
    /// Boolean.
    Boolean,
    /// Character.
    Character,
    /// Missing.
    NA,
}

/// The kind that a data type belongs to, whatever its width.
pub open spec fn kind_of_data_type(t: DataType) -> DType {
    match t {
        DataType::Text => DType::Text,
        DataType::Integer | DataType::Long => DType::Int,
        DataType::UInteger | DataType::ULong => DType::UInt,
        DataType::Float | DataType::Double => DType::Float,
        DataType::Boolean => DType::Bool,
        DataType::Character => DType::Char,
        DataType::NA => DType::NA,
    }
}

/// Two kinds are compatible when they are the same or one of them is missing.
/// `Mixed` is therefore compatible with itself and with `NA` only.
pub open spec fn compatible(a: DType, b: DType) -> bool {
    a == b || a == DType::NA || b == DType::NA
}

/// What a kind becomes when values of it are converted to `target`: the
/// target where every value converts, `Mixed` where a text has to be parsed
/// and may fail, `NA` where no value converts.
pub open spec fn converted_kind(source: DType, target: DType) -> DType {
    match (source, target) {
        (DType::Int, DType::Int) | (DType::Float, DType::Int) | (DType::Bool, DType::Int)
        | (DType::Char, DType::Int) => DType::Int,
        (DType::UInt, DType::UInt) | (DType::Bool, DType::UInt) | (DType::Char, DType::UInt) => DType::UInt,
        (DType::Int, DType::Float) | (DType::UInt, DType::Float) | (DType::Float, DType::Float)
        | (DType::Bool, DType::Float) | (DType::Char, DType::Float) => DType::Float,
        (DType::Int, DType::Bool) | (DType::UInt, DType::Bool) | (DType::Float, DType::Bool)
        | (DType::Bool, DType::Bool) => DType::Bool,
        (DType::Char, DType::Char) => DType::Char,
        (DType::Text, DType::Text) => DType::Text,
        (DType::Text, DType::Int) | (DType::Text, DType::UInt) | (DType::Text, DType::Float)
        | (DType::Text, DType::Bool) | (DType::Text, DType::Char) => DType::Mixed,
        (DType::Int, DType::Text) | (DType::UInt, DType::Text) | (DType::Float, DType::Text)
        | (DType::Bool, DType::Text) | (DType::Char, DType::Text) => DType::Text,
        _ => DType::NA,
    }
}

impl DType {
    /// The name of the kind.
    pub open spec fn label(self) -> Seq<char> {
        match self {
            DType::Int => "Integer"@,
            DType::UInt => "Unsigned Integer"@,
            DType::Float => "Floating Point Number"@,
            DType::Bool => "Boolean"@,
            DType::Char => "Character"@,
            DType::Text => "Text"@,
            DType::NA => "Invalid/Missing"@,
            DType::Mixed => "Mixed"@,
        }
    }

    /// Whether the two kinds are compatible.  This is not `==`: every kind is
    /// compatible with `NA`.
    pub fn equals(&self, other: &DType) -> (r: bool)
        ensures
            r == compatible(*self, *other),
    {
        match (self, other) {
            (_, DType::NA) => true,
            (DType::NA, _) => true,
            (a, b) => *a == *b,
        }
    }

    /// Whether this is the kind of a missing value.
    pub fn is_nan(&self) -> (r: bool)
        ensures
            r == (*self == DType::NA),
    {
        match self {
            DType::NA => true,
            _ => false,
        }
    }

    /// The name of the kind.
    pub fn to_string(&self) -> (r: String)
        ensures
            r@ == self.label(),
    {
        match self {
            DType::Int => String::from_str("Integer"),
            DType::UInt => String::from_str("Unsigned Integer"),
            DType::Float => String::from_str("Floating Point Number"),
            DType::Bool => String::from_str("Boolean"),
            DType::Char => String::from_str("Character"),
            DType::Text => String::from_str("Text"),
            DType::NA => String::from_str("Invalid/Missing"),
            DType::Mixed => String::from_str("Mixed"),
        }
    }
}

impl DataType {
    /// The kind that the data type belongs to.
    pub fn dtype(&self) -> (r: DType)
        ensures
            r == kind_of_data_type(*self),
    {
        match self {
            DataType::Text => DType::Text,
            DataType::Integer | DataType::Long => DType::Int,
            DataType::UInteger | DataType::ULong => DType::UInt,
            DataType::Float | DataType::Double => DType::Float,
            DataType::Boolean => DType::Bool,
            DataType::Character => DType::Char,
            DataType::NA => DType::NA,
        }
    }
}

} // verus!
