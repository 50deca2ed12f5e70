//! A dataframe: named series over one index.

use std::collections::HashMap;
use vstd::prelude::*;
use crate::dtype::DType;
use crate::series::{Series, SeriesValue};

verus! {

/// A dataframe of strictly typed series.
#[derive(Debug)]
pub struct DataFrame {
    index: Series,
    series: HashMap<String, Series>,
}

/// Common functionality for dataframe-like objects.
pub trait DataFrameLike: Sized {
    /// The index of the dataframe: one cell for each record.
    spec fn index_value(&self) -> SeriesValue;

    /// The number of series in the dataframe.
    spec fn width(&self) -> nat;

    /// Builds an empty dataframe: no series, and an empty index of unsigned
    /// integers named `index`.
    fn new() -> (r: Self)
        ensures
            r.index_value() == (SeriesValue {
                name: Some("index"@),
                cells: Seq::empty(),
                dtype: DType::UInt,
            }),
            r.width() == 0,
    ;

    /// Whether the dataframe is empty: whether it holds no records.  A
    /// dataframe that holds series without cells is empty.
    fn is_empty(&self) -> (r: bool)
        ensures
            r == (self.index_value().cells.len() == 0),
    ;
}

impl DataFrameLike for DataFrame {
    closed spec fn index_value(&self) -> SeriesValue {
        self.index@
    }

    closed spec fn width(&self) -> nat {
        self.series@.len()
    }

    fn new() -> (r: Self) {
        DataFrame { index: Series::new(String::from_str("index"), DType::UInt), series: HashMap::new() }
    }

    fn is_empty(&self) -> (r: bool) {
        self.index.is_empty()
    }
}

} // verus!
