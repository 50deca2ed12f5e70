//! Equality of cells and of series.

use vstd::prelude::*;
use vstd::std_specs::cmp::PartialEqSpecImpl;
use crate::cell::{CellValue, DCell};
use crate::float::{equal_bits, float_equal};
use crate::series::{MixedSeries, Series};
use crate::convert::primitive_cells;
use crate::traits::Primitive;
use crate::utils::cell_values;

verus! {

/// Whether two cells are equal: they are of one kind and hold the same
/// value.  Binary64 numbers are equal as numbers: a NaN equals nothing, not
/// even itself, and the two zeros are equal.
pub open spec fn cells_equal(a: CellValue, b: CellValue) -> bool {
    match (a, b) {
        (CellValue::Float(x), CellValue::Float(y)) => float_equal(x, y),
        _ => a == b,
    }
}

/// Whether two sequences of cells agree wherever both have a cell.
pub open spec fn agree(a: Seq<CellValue>, b: Seq<CellValue>) -> bool {
    forall|i: int| 0 <= i < a.len() && i < b.len() ==> cells_equal(#[trigger] a[i], #[trigger] b[i])
}

/// Whether two sequences of cells have one length and equal cells.
pub open spec fn all_equal(a: Seq<CellValue>, b: Seq<CellValue>) -> bool {
    a.len() == b.len() && agree(a, b)
}

impl PartialEqSpecImpl for DCell {
    open spec fn obeys_eq_spec() -> bool {
        true
    }

    open spec fn eq_spec(&self, other: &DCell) -> bool {
        cells_equal(self@, other@)
    }
}

impl PartialEq for DCell {
    fn eq(&self, other: &DCell) -> (r: bool) {
        match (self, other) {
            (DCell::Int(a), DCell::Int(b)) => *a == *b,
            (DCell::UInt(a), DCell::UInt(b)) => *a == *b,
            (DCell::Float(a), DCell::Float(b)) => equal_bits(*a, *b),
            (DCell::Char(a), DCell::Char(b)) => *a == *b,
            (DCell::Bool(a), DCell::Bool(b)) => *a == *b,
            (DCell::Text(a), DCell::Text(b)) => *a == *b,
            (DCell::NA, DCell::NA) => true,
            _ => false,
        }
    }
}

/// Whether two names are the same.
pub fn same_name(a: Option<&String>, b: Option<&String>) -> (r: bool)
    ensures
        r == match (a, b) {
            (Some(x), Some(y)) => x@ == y@,
            (None, None) => true,
            _ => false,
        },
{
    match (a, b) {
        (Some(x), Some(y)) => *x == *y,
        (None, None) => true,
        _ => false,
    }
}

/// Whether two vectors of cells agree wherever both have a cell.
pub fn same_cells(a: &Vec<DCell>, b: &Vec<DCell>) -> (r: bool)
    ensures
        r == agree(cell_values(a@), cell_values(b@)),
{
    let mut i: usize = 0;
    while i < a.len() && i < b.len()
        invariant
            forall|j: int| 0 <= j < i ==> cells_equal(cell_values(a@)[j], cell_values(b@)[j]),
        decreases a.len() - i,
    {
        if a[i] != b[i] {
            assert(!cells_equal(cell_values(a@)[i as int], cell_values(b@)[i as int]));
            return false;
        }
        assert(cells_equal(cell_values(a@)[i as int], cell_values(b@)[i as int]));
        i += 1;
    }
    true
}

impl PartialEqSpecImpl<MixedSeries> for Series {
    open spec fn obeys_eq_spec() -> bool {
        true
    }

    /// Two series are equal when they have the same name and the same cells,
    /// whatever the kind of a strict one.
    open spec fn eq_spec(&self, other: &MixedSeries) -> bool {
        self@.name == other@.name && all_equal(self@.cells, other@.cells)
    }
}

impl PartialEq<MixedSeries> for Series {
    fn eq(&self, other: &MixedSeries) -> (r: bool) {
        let r = same_name(self.name(), other.name()) && self.len() == other.len() && same_cells(
            self.cells(),
            other.cells(),
        );
        r
    }
}

impl PartialEqSpecImpl<Series> for MixedSeries {
    open spec fn obeys_eq_spec() -> bool {
        true
    }

    /// Two series are equal when they have the same name and the same cells,
    /// whatever the kind of a strict one.
    open spec fn eq_spec(&self, other: &Series) -> bool {
        self@.name == other@.name && all_equal(self@.cells, other@.cells)
    }
}

impl PartialEq<Series> for MixedSeries {
    fn eq(&self, other: &Series) -> (r: bool) {
        let r = same_name(self.name(), other.name()) && self.len() == other.len() && same_cells(
            self.cells(),
            other.cells(),
        );
        r
    }
}

impl PartialEqSpecImpl<Series> for Series {
    open spec fn obeys_eq_spec() -> bool {
        true
    }

    /// Two series are equal when they have the same name and the same cells,
    /// whatever the kind of a strict one.
    open spec fn eq_spec(&self, other: &Series) -> bool {
        self@.name == other@.name && all_equal(self@.cells, other@.cells)
    }
}

impl PartialEq<Series> for Series {
    fn eq(&self, other: &Series) -> (r: bool) {
        let r = same_name(self.name(), other.name()) && self.len() == other.len() && same_cells(
            self.cells(),
            other.cells(),
        );
        r
    }
}

impl PartialEqSpecImpl<MixedSeries> for MixedSeries {
    open spec fn obeys_eq_spec() -> bool {
        true
    }

    /// Two series are equal when they have the same name and the same cells,
    /// whatever the kind of a strict one.
    open spec fn eq_spec(&self, other: &MixedSeries) -> bool {
        self@.name == other@.name && all_equal(self@.cells, other@.cells)
    }
}

impl PartialEq<MixedSeries> for MixedSeries {
    fn eq(&self, other: &MixedSeries) -> (r: bool) {
        let r = same_name(self.name(), other.name()) && self.len() == other.len() && same_cells(
            self.cells(),
            other.cells(),
        );
        r
    }
}

impl<T: Primitive> PartialEqSpecImpl<Vec<T>> for Series {
    open spec fn obeys_eq_spec() -> bool {
        true
    }

    /// A series equals a vector of primitive values when its cells hold
    /// those values wherever both have one; the name and the lengths are not
    /// compared.
    open spec fn eq_spec(&self, other: &Vec<T>) -> bool {
        agree(self@.cells, primitive_cells(other@))
    }
}

impl<T: Primitive> PartialEq<Vec<T>> for Series {
    fn eq(&self, other: &Vec<T>) -> (r: bool) {
        let cells = self.cells();
        let mut i: usize = 0;
        while i < cells.len() && i < other.len()
            invariant
                cell_values(cells@) == self@.cells,
                forall|j: int| 0 <= j < i ==> cells_equal(self@.cells[j], primitive_cells(other@)[j]),
            decreases cells.len() - i,
        {
            assert(cell_values(cells@)[i as int] == cells@[i as int]@);
            if cells[i] != other[i].to_cell() {
                assert(!cells_equal(self@.cells[i as int], primitive_cells(other@)[i as int]));
                return false;
            }
            i += 1;
        }
        true
    }
}

impl<T: Primitive> PartialEqSpecImpl<Vec<T>> for MixedSeries {
    open spec fn obeys_eq_spec() -> bool {
        true
    }

    /// A series equals a vector of primitive values when its cells hold
    /// those values wherever both have one; the name and the lengths are not
    /// compared.
    open spec fn eq_spec(&self, other: &Vec<T>) -> bool {
        agree(self@.cells, primitive_cells(other@))
    }
}

impl<T: Primitive> PartialEq<Vec<T>> for MixedSeries {
    fn eq(&self, other: &Vec<T>) -> (r: bool) {
        let cells = self.cells();
        let mut i: usize = 0;
        while i < cells.len() && i < other.len()
            invariant
                cell_values(cells@) == self@.cells,
                forall|j: int| 0 <= j < i ==> cells_equal(self@.cells[j], primitive_cells(other@)[j]),
            decreases cells.len() - i,
        {
            assert(cell_values(cells@)[i as int] == cells@[i as int]@);
            if cells[i] != other[i].to_cell() {
                assert(!cells_equal(self@.cells[i as int], primitive_cells(other@)[i as int]));
                return false;
            }
            i += 1;
        }
        true
    }
}

} // verus!
