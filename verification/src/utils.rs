//! The kind of a vector of cells.

use vstd::prelude::*;
use crate::cell::{kind_of, CellValue, DCell};
use crate::dtype::{compatible, DType};

verus! {

/// The models of a sequence of cells.
pub open spec fn cell_values(cells: Seq<DCell>) -> Seq<CellValue> {
    cells.map_values(|c: DCell| c@)
}

/// The running kind after one more cell.  A missing running kind takes the
/// kind of the cell; a settled one stays under a missing cell and under a
/// cell of its own kind, and becomes `Mixed` under any other.
pub open spec fn merged_kind(running: DType, next: DType) -> DType {
    if running == DType::NA {
        next
    } else if next == DType::NA || next == running {
        running
    } else {
        DType::Mixed
    }
}

/// The kind of a sequence of cells, found by one pass from the left that
/// starts at `NA`.
pub open spec fn vector_kind(cells: Seq<CellValue>) -> DType
    decreases cells.len(),
{
    if cells.len() == 0 {
        DType::NA
    } else {
        merged_kind(vector_kind(cells.drop_last()), kind_of(cells.last()))
    }
}

/// Whether every cell of the sequence is missing.
pub open spec fn all_missing(cells: Seq<CellValue>) -> bool {
    forall|i: int| 0 <= i < cells.len() ==> #[trigger] cells[i] is NA
}

/// Whether every cell of the sequence may stand in a series of kind `dtype`.
pub open spec fn all_compatible(cells: Seq<CellValue>, dtype: DType) -> bool {
    forall|i: int| 0 <= i < cells.len() ==> compatible(dtype, kind_of(#[trigger] cells[i]))
}

/// Whether two cells of the sequence hold values of different kinds.
pub open spec fn has_two_kinds(cells: Seq<CellValue>) -> bool {
    exists|i: int, j: int|
        0 <= i < cells.len() && 0 <= j < cells.len() && !(#[trigger] cells[i] is NA) && !(
        #[trigger] cells[j] is NA) && kind_of(cells[i]) != kind_of(cells[j])
}

/// What the kind of a sequence says of its cells: it is `NA` exactly when
/// every cell is missing, `Mixed` exactly when two cells hold values of
/// different kinds, and otherwise the one kind of all cells that are not
/// missing.
pub proof fn lemma_vector_kind(cells: Seq<CellValue>)
    ensures
        vector_kind(cells) == DType::NA <==> all_missing(cells),
        vector_kind(cells) == DType::Mixed <==> has_two_kinds(cells),
        vector_kind(cells) != DType::Mixed ==> forall|i: int|
            0 <= i < cells.len() && !(#[trigger] cells[i] is NA) ==> kind_of(cells[i])
                == vector_kind(cells),
        vector_kind(cells) != DType::Mixed ==> all_compatible(cells, vector_kind(cells)),
    decreases cells.len(),
{
    if cells.len() > 0 {
        let front = cells.drop_last();
        let last = cells.last();
        lemma_vector_kind(front);
        assert(forall|i: int| 0 <= i < front.len() ==> front[i] == cells[i]);
        let k = vector_kind(front);
        if has_two_kinds(front) {
            let (i, j) = choose|i: int, j: int|
                0 <= i < front.len() && 0 <= j < front.len() && !(#[trigger] front[i] is NA) && !(
                #[trigger] front[j] is NA) && kind_of(front[i]) != kind_of(front[j]);
            assert(!(cells[i] is NA) && !(cells[j] is NA) && kind_of(cells[i]) != kind_of(cells[j]));
        }
        if has_two_kinds(cells) && !has_two_kinds(front) {
            let (i, j) = choose|i: int, j: int|
                0 <= i < cells.len() && 0 <= j < cells.len() && !(#[trigger] cells[i] is NA) && !(
                #[trigger] cells[j] is NA) && kind_of(cells[i]) != kind_of(cells[j]);
            if i < front.len() && j < front.len() {
                assert(!(front[i] is NA) && !(front[j] is NA));
            } else if i < front.len() {
                assert(!(front[i] is NA));
            } else if j < front.len() {
                assert(!(front[j] is NA));
            }
        }
        if k != DType::Mixed && k != DType::NA && !(last is NA) && kind_of(last) != k {
            assert(!all_missing(front));
            let i = choose|i: int| 0 <= i < front.len() && !(#[trigger] front[i] is NA);
            assert(!(cells[i] is NA) && !(cells[cells.len() - 1] is NA) && kind_of(cells[i])
                != kind_of(cells[cells.len() - 1]));
        }
        if all_missing(cells) {
            assert(cells[cells.len() - 1] is NA);
        }
    }
}

/// Once a prefix is of mixed kind the whole sequence is.
pub proof fn lemma_mixed_prefix(cells: Seq<CellValue>, k: int)
    requires
        0 <= k <= cells.len(),
        vector_kind(cells.take(k)) == DType::Mixed,
    ensures
        vector_kind(cells) == DType::Mixed,
    decreases cells.len() - k,
{
    if k == cells.len() {
        assert(cells.take(k) == cells);
    } else {
        assert(cells.take(k + 1).drop_last() == cells.take(k));
        lemma_mixed_prefix(cells, k + 1);
    }
}

/// The kind of a vector of cells: `NA` where every cell is missing, the kind
/// of the cells that are not where they agree, and `Mixed` where they do not.
pub fn vec_dtype(vector: &Vec<DCell>) -> (r: DType)
    ensures
        r == vector_kind(cell_values(vector@)),
{
    let ghost cells = cell_values(vector@);
    let mut result = DType::NA;
    let mut i: usize = 0;
    while i < vector.len()
        invariant
            i <= vector.len(),
            cells == cell_values(vector@),
            result == vector_kind(cells.take(i as int)),
            result != DType::Mixed,
        decreases vector.len() - i,
    {
        let cell_type = vector[i].dtype();
        proof {
            assert(cells.take(i + 1).drop_last() == cells.take(i as int));
            assert(cells.take(i + 1).last() == vector@[i as int]@);
        }
        if cell_type != result && !result.is_nan() && !cell_type.is_nan() {
            proof {
                lemma_mixed_prefix(cells, i + 1);
            }
            return DType::Mixed;
        } else if cell_type != result && result.is_nan() {
            result = cell_type;
        }
        i += 1;
    }
    assert(cells.take(i as int) == cells);
    result
}

} // verus!
