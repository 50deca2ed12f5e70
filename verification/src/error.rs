//! Errors reported by the series and the scalar extractions.

use vstd::prelude::*;

verus! {

/// What a series or a scalar extraction can refuse.
#[derive(Debug, Clone, Copy, PartialEq, Eq, Structural)]
pub enum RaccoonError {
    /// A value of the wrong kind was offered to a strict series.
    InvalidType,
    /// A cell was asked for a scalar of a kind it does not hold.
    ConversionError,
    /// A strict series was to be built from cells of several kinds.
    MixedTypeError,
}

/// The result of an operation that changes a series.
pub type RaccoonResult = Result<(), RaccoonError>;

impl RaccoonError {
    /// The message of each error.
    pub open spec fn message(self) -> Seq<char> {
        match self {
            RaccoonError::InvalidType => "invalid type provided"@,
            RaccoonError::ConversionError => "error converting types"@,
            RaccoonError::MixedTypeError => "mixed types are not allowed"@,
        }
    }

    /// A short description of the error.
    pub fn description(&self) -> (r: &'static str)
        ensures
            r@ == self.message(),
    {
        match self {
            RaccoonError::InvalidType => "invalid type provided",
            RaccoonError::ConversionError => "error converting types",
            RaccoonError::MixedTypeError => "mixed types are not allowed",
        }
    }

    /// The description as an owned string.
    pub fn to_string(&self) -> (r: String)
        ensures
            r@ == self.message(),
    {
        String::from_str(self.description())
    }
}

} // verus!
