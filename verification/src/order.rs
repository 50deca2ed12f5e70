//! The order of cells: within a kind, never across kinds.

use core::cmp::Ordering;
use vstd::prelude::*;
use vstd::std_specs::cmp::PartialOrdSpecImpl;
use crate::cell::{CellValue, DCell};
use crate::float::{float_is_nan, float_key, float_rank, is_nan_bits};
use crate::text::{chars_of, common_prefix, common_prefix_len};

verus! {

/// The order of two integers.
pub open spec fn order_of(a: int, b: int) -> Ordering {
    if a < b {
        Ordering::Less
    } else if a > b {
        Ordering::Greater
    } else {
        Ordering::Equal
    }
}

/// The order of two signed integers.
pub open spec fn signed_order(a: i64, b: i64) -> Ordering {
    if a < b {
        Ordering::Less
    } else if a > b {
        Ordering::Greater
    } else {
        Ordering::Equal
    }
}

/// The order of two unsigned integers.
pub open spec fn unsigned_order(a: u64, b: u64) -> Ordering {
    if a < b {
        Ordering::Less
    } else if a > b {
        Ordering::Greater
    } else {
        Ordering::Equal
    }
}

/// The order of two characters: that of their code points.
pub open spec fn char_order(a: char, b: char) -> Ordering {
    if a < b {
        Ordering::Less
    } else if a > b {
        Ordering::Greater
    } else {
        Ordering::Equal
    }
}

/// The order of two booleans: `false` comes before `true`.
pub open spec fn bool_order(a: bool, b: bool) -> Ordering {
    if a == b {
        Ordering::Equal
    } else if b {
        Ordering::Less
    } else {
        Ordering::Greater
    }
}

/// The order of two binary64 values: that of their places, and none where
/// one of them is a NaN.
pub open spec fn float_order(a: u64, b: u64) -> Option<Ordering> {
    if float_is_nan(a) || float_is_nan(b) {
        None
    } else {
        Some(order_of(float_key(a), float_key(b)))
    }
}

/// The order of two texts: that of the first characters in which they
/// differ, and a text before every longer text that begins with it.
pub open spec fn text_order(a: Seq<char>, b: Seq<char>) -> Ordering {
    let k = common_prefix_len(a, b);
    if k >= a.len() {
        if k >= b.len() {
            Ordering::Equal
        } else {
            Ordering::Less
        }
    } else if k >= b.len() {
        Ordering::Greater
    } else {
        char_order(a.index(k), b.index(k))
    }
}

/// The order of two cells: that of their values where they are of one kind,
/// and none where they are not.  Two missing cells are equal.
pub open spec fn cell_order(a: CellValue, b: CellValue) -> Option<Ordering> {
    match (a, b) {
        (CellValue::Int(x), CellValue::Int(y)) => Some(signed_order(x, y)),
        (CellValue::UInt(x), CellValue::UInt(y)) => Some(unsigned_order(x, y)),
        (CellValue::Float(x), CellValue::Float(y)) => float_order(x, y),
        (CellValue::Char(x), CellValue::Char(y)) => Some(char_order(x, y)),
        (CellValue::Bool(x), CellValue::Bool(y)) => Some(bool_order(x, y)),
        (CellValue::Text(x), CellValue::Text(y)) => Some(text_order(x, y)),
        (CellValue::NA, CellValue::NA) => Some(Ordering::Equal),
        _ => None,
    }
}

/// The order of two texts.
pub fn compare_text(a: &str, b: &str) -> (r: Ordering)
    ensures
        r == text_order(a@, b@),
{
    let x = chars_of(a);
    let y = chars_of(b);
    let k = common_prefix(&x, &y);
    if k >= x.len() {
        if k >= y.len() {
            Ordering::Equal
        } else {
            Ordering::Less
        }
    } else if k >= y.len() {
        Ordering::Greater
    } else if x[k] < y[k] {
        Ordering::Less
    } else if x[k] > y[k] {
        Ordering::Greater
    } else {
        Ordering::Equal
    }
}

impl PartialOrdSpecImpl for DCell {
    open spec fn obeys_partial_cmp_spec() -> bool {
        true
    }

    open spec fn partial_cmp_spec(&self, other: &DCell) -> Option<Ordering> {
        cell_order(self@, other@)
    }
}

impl PartialOrd for DCell {
    fn partial_cmp(&self, other: &DCell) -> (r: Option<Ordering>) {
        match (self, other) {
            (DCell::Int(x), DCell::Int(y)) => Some(
                if *x < *y {
                    Ordering::Less
                } else if *x > *y {
                    Ordering::Greater
                } else {
                    Ordering::Equal
                },
            ),
            (DCell::UInt(x), DCell::UInt(y)) => Some(
                if *x < *y {
                    Ordering::Less
                } else if *x > *y {
                    Ordering::Greater
                } else {
                    Ordering::Equal
                },
            ),
            (DCell::Float(x), DCell::Float(y)) => {
                if is_nan_bits(*x) || is_nan_bits(*y) {
                    None
                } else {
                    let p = float_rank(*x);
                    let q = float_rank(*y);
                    Some(
                        if p < q {
                            Ordering::Less
                        } else if p > q {
                            Ordering::Greater
                        } else {
                            Ordering::Equal
                        },
                    )
                }
            },
            (DCell::Char(x), DCell::Char(y)) => Some(
                if *x < *y {
                    Ordering::Less
                } else if *x > *y {
                    Ordering::Greater
                } else {
                    Ordering::Equal
                },
            ),
            (DCell::Bool(x), DCell::Bool(y)) => Some(
                if *x == *y {
                    Ordering::Equal
                } else if *y {
                    Ordering::Less
                } else {
                    Ordering::Greater
                },
            ),
            (DCell::Text(x), DCell::Text(y)) => Some(compare_text(x.as_str(), y.as_str())),
            (DCell::NA, DCell::NA) => Some(Ordering::Equal),
            _ => None,
        }
    }
}

} // verus!
