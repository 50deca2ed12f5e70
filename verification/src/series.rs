//! Growable, named series of cells.
//!
//! A [`Series`] has a kind and takes only cells that are compatible with it;
//! its cells are read by index and never written by index.  A
//! [`MixedSeries`] takes every cell and lets any of them be replaced.

use vstd::prelude::*;
use crate::cell::{kind_of, CellValue, DCell};
use crate::convert::{answer_values, convert_cells, converted_cells, into_cells};
use crate::convert::{lemma_converted_kind, outcome_values, plan_cells, planned_cells, primitive_cells};
use crate::dtype::{compatible, DType};
use crate::error::{RaccoonError, RaccoonResult};
use crate::float::{Answer, AnswerValue, Outcome};
use crate::traits::{AsType, Primitive, Typed};
use crate::utils::{all_compatible, cell_values, lemma_vector_kind, vec_dtype, vector_kind};

verus! {

/// The model of a strict series.
pub struct SeriesValue {
    pub name: Option<Seq<char>>,
    pub cells: Seq<CellValue>,
    pub dtype: DType,
}

/// The model of a mixed series.
pub struct MixedSeriesValue {
    pub name: Option<Seq<char>>,
    pub cells: Seq<CellValue>,
}

/// The model of a name.
pub open spec fn name_value(name: Option<String>) -> Option<Seq<char>> {
    match name {
        Some(s) => Some(s@),
        None => None,
    }
}

/// A series is valid when each of its cells is compatible with its kind: a
/// cell is of the kind of the series or missing, and a series of kind `NA`
/// holds cells of every kind.
pub open spec fn valid(s: SeriesValue) -> bool {
    all_compatible(s.cells, s.dtype)
}

/// The mixed series that a strict one turns into: its name and its cells.
pub open spec fn mixed_of(s: SeriesValue) -> MixedSeriesValue {
    MixedSeriesValue { name: s.name, cells: s.cells }
}

/// The strict series of kind `dtype` that a mixed one turns into: its name,
/// and each cell converted.
pub open spec fn strict_of(m: MixedSeriesValue, dtype: DType, answers: Seq<AnswerValue>) -> SeriesValue {
    SeriesValue { name: m.name, cells: converted_cells(m.cells, dtype, answers), dtype }
}

/// A growable, named series of one kind.
#[derive(Debug)]
pub struct Series {
    name: Option<String>,
    cells: Vec<DCell>,
    dtype: DType,
}

/// A growable, named series that takes cells of every kind.
#[derive(Debug)]
pub struct MixedSeries {
    name: Option<String>,
    cells: Vec<DCell>,
}

impl View for Series {
    type V = SeriesValue;

    closed spec fn view(&self) -> SeriesValue {
        SeriesValue { name: name_value(self.name), cells: cell_values(self.cells@), dtype: self.dtype }
    }
}

impl View for MixedSeries {
    type V = MixedSeriesValue;

    closed spec fn view(&self) -> MixedSeriesValue {
        MixedSeriesValue { name: name_value(self.name), cells: cell_values(self.cells@) }
    }
}

/// Whether every cell of the vector is compatible with `dtype`.
fn all_accepted(cells: &Vec<DCell>, dtype: DType) -> (r: bool)
    ensures
        r == all_compatible(cell_values(cells@), dtype),
{
    let mut i: usize = 0;
    while i < cells.len()
        invariant
            i <= cells.len(),
            forall|j: int| 0 <= j < i ==> compatible(dtype, kind_of(#[trigger] cell_values(cells@)[j])),
        decreases cells.len() - i,
    {
        if !dtype.equals(&cells[i].dtype()) {
            assert(cell_values(cells@)[i as int] == cells@[i as int]@);
            return false;
        }
        assert(cell_values(cells@)[i as int] == cells@[i as int]@);
        i += 1;
    }
    true
}

impl Series {
    /// Whether each cell is compatible with the kind of the series.  Every
    /// series is well formed, at every time.
    pub open spec fn well_formed(&self) -> bool {
        valid(self@)
    }

    #[verifier::type_invariant]
    closed spec fn sound(&self) -> bool {
        valid(self@)
    }

    /// An empty series of the given name and kind.
    pub fn new(name: String, data_type: DType) -> (r: Series)
        ensures
            r@ == (SeriesValue { name: Some(name@), cells: Seq::empty(), dtype: data_type }),
            r.well_formed(),
    {
        let cells: Vec<DCell> = Vec::new();
        assert(cell_values(cells@) =~= Seq::empty());
        Series { name: Some(name), cells, dtype: data_type }
    }

    /// An empty series of the given name and kind, with room for `capacity` cells.
    pub fn with_capacity(name: String, data_type: DType, capacity: usize) -> (r: Series)
        ensures
            r@ == (SeriesValue { name: Some(name@), cells: Seq::empty(), dtype: data_type }),
            r.well_formed(),
    {
        let cells: Vec<DCell> = Vec::with_capacity(capacity);
        assert(cell_values(cells@) =~= Seq::empty());
        Series { name: Some(name), cells, dtype: data_type }
    }

    /// A named series of the given cells.  Its kind is that of the cells; it
    /// is refused where they are of several kinds.
    pub fn new_typed(name: String, vector: Vec<DCell>) -> (r: Result<Series, RaccoonError>)
        ensures
            match r {
                Ok(s) => vector_kind(cell_values(vector@)) != DType::Mixed && s@ == (SeriesValue {
                    name: Some(name@),
                    cells: cell_values(vector@),
                    dtype: vector_kind(cell_values(vector@)),
                }) && s.well_formed(),
                Err(e) => vector_kind(cell_values(vector@)) == DType::Mixed && e
                    == RaccoonError::MixedTypeError,
            },
    {
        let dtype = vec_dtype(&vector);
        if dtype == DType::Mixed {
            return Err(RaccoonError::MixedTypeError);
        }
        proof {
            lemma_vector_kind(cell_values(vector@));
        }
        Ok(Series { name: Some(name), cells: vector, dtype })
    }

    /// A named series of the given primitive values, of their kind; of kind
    /// `NA` where there are none.
    pub fn from_vector<T: Primitive>(name: String, vector: Vec<T>) -> (r: Series)
        ensures
            r@ == (SeriesValue {
                name: Some(name@),
                cells: primitive_cells(vector@),
                dtype: if vector@.len() == 0 {
                    DType::NA
                } else {
                    T::primitive_kind()
                },
            }),
            r.well_formed(),
    {
        let cells = into_cells(vector);
        assert(cells@.len() == vector@.len()) by {
            assert(cell_values(cells@).len() == primitive_cells(vector@).len());
        }
        let dtype = if cells.len() == 0 {
            DType::NA
        } else {
            cells[0].dtype()
        };
        proof {
            assert forall|i: int| 0 <= i < cell_values(cells@).len() implies compatible(
                dtype,
                kind_of(#[trigger] cell_values(cells@)[i]),
            ) by {
                assert(cell_values(cells@)[i] == cells@[i]@);
            }
        }
        Series { name: Some(name), cells, dtype }
    }

    /// The strict series of kind `dtype` that a mixed series turns into.
    /// Every cell is converted; where that takes the text of a binary64 value, the
    /// answer at the cell's index settles it, and a missing answer counts as
    /// `Invalid`.
    pub fn from_mixed(series: MixedSeries, dtype: DType, answers: Vec<Answer>) -> (r: Series)
        ensures
            r@ == strict_of(series@, dtype, answer_values(answers@)),
            r.well_formed(),
    {
        let cells = convert_cells(&series.cells, dtype, &answers);
        proof {
            assert forall|i: int| 0 <= i < cell_values(cells@).len() implies compatible(
                dtype,
                kind_of(#[trigger] cell_values(cells@)[i]),
            ) by {
                lemma_converted_kind(
                    series@.cells[i],
                    dtype,
                    crate::convert::answer_at(answer_values(answers@), i),
                );
            }
        }
        Series { name: series.name, cells, dtype }
    }

    /// Whether the series takes the cell: whether the kind of the cell is
    /// compatible with that of the series.
    pub fn accepts(&self, cell: &DCell) -> (r: bool)
        ensures
            r == compatible(self@.dtype, kind_of(cell@)),
    {
        self.dtype.equals(&cell.dtype())
    }

    /// Appends a cell, if the series accepts it.
    pub fn push_entry(&mut self, data_entry: DCell) -> (r: RaccoonResult)
        ensures
            final(self).well_formed(),
            r is Ok <==> compatible(old(self)@.dtype, kind_of(data_entry@)),
            r is Ok ==> final(self)@ == (SeriesValue {
                cells: old(self)@.cells.push(data_entry@),
                ..old(self)@
            }),
            r is Err ==> r == Err::<(), RaccoonError>(RaccoonError::InvalidType) && final(self)@ == old(self)@,
    {
        proof {
            use_type_invariant(&*self);
        }
        if !self.accepts(&data_entry) {
            return Err(RaccoonError::InvalidType);
        }
        let mut cells: Vec<DCell> = Vec::new();
        core::mem::swap(&mut self.cells, &mut cells);
        cells.push(data_entry);
        proof {
            assert(cell_values(cells@) =~= old(self)@.cells.push(data_entry@));
        }
        self.cells = cells;
        Ok(())
    }

    /// Appends all the cells, if the series accepts each of them, and none otherwise.
    pub fn push_entry_vec(&mut self, vector: Vec<DCell>) -> (r: RaccoonResult)
        ensures
            final(self).well_formed(),
            r is Ok <==> all_compatible(cell_values(vector@), old(self)@.dtype),
            r is Ok ==> final(self)@ == (SeriesValue {
                cells: old(self)@.cells + cell_values(vector@),
                ..old(self)@
            }),
            r is Err ==> r == Err::<(), RaccoonError>(RaccoonError::InvalidType) && final(self)@ == old(self)@,
    {
        proof {
            use_type_invariant(&*self);
        }
        if !all_accepted(&vector, self.dtype) {
            return Err(RaccoonError::InvalidType);
        }
        let mut vector = vector;
        let ghost added = cell_values(vector@);
        let mut cells: Vec<DCell> = Vec::new();
        core::mem::swap(&mut self.cells, &mut cells);
        cells.append(&mut vector);
        proof {
            assert(cell_values(cells@) =~= old(self)@.cells + added);
        }
        self.cells = cells;
        Ok(())
    }

    /// Appends a primitive value, if the series accepts its kind.
    pub fn push<T: Primitive>(&mut self, data: T) -> (r: RaccoonResult)
        ensures
            final(self).well_formed(),
            r is Ok <==> compatible(old(self)@.dtype, T::primitive_kind()),
            r is Ok ==> final(self)@ == (SeriesValue {
                cells: old(self)@.cells.push(data.cell()),
                ..old(self)@
            }),
            r is Err ==> r == Err::<(), RaccoonError>(RaccoonError::InvalidType) && final(self)@ == old(self)@,
    {
        self.push_entry(data.into_cell())
    }

    /// Appends all the primitive values, if the series accepts their kind,
    /// and none otherwise.  No values are always accepted.
    pub fn push_vec<T: Primitive>(&mut self, vector: Vec<T>) -> (r: RaccoonResult)
        ensures
            final(self).well_formed(),
            r is Ok <==> vector@.len() == 0 || compatible(old(self)@.dtype, T::primitive_kind()),
            r is Ok ==> final(self)@ == (SeriesValue {
                cells: old(self)@.cells + primitive_cells(vector@),
                ..old(self)@
            }),
            r is Err ==> r == Err::<(), RaccoonError>(RaccoonError::InvalidType) && final(self)@ == old(self)@,
    {
        let cells = into_cells(vector);
        proof {
            let values = cell_values(cells@);
            assert(values.len() == vector@.len());
            assert forall|i: int| 0 <= i < values.len() implies kind_of(#[trigger] values[i])
                == T::primitive_kind() by {
                assert(values[i] == cells@[i]@);
            }
            if values.len() > 0 && !compatible(old(self)@.dtype, T::primitive_kind()) {
                assert(!compatible(old(self)@.dtype, kind_of(values[0])));
            }
        }
        self.push_entry_vec(cells)
    }

    /// Takes the last cell off the series.
    pub fn pop_entry(&mut self) -> (r: Option<DCell>)
        ensures
            final(self).well_formed(),
            old(self)@.cells.len() == 0 ==> r is None && final(self)@ == old(self)@,
            old(self)@.cells.len() > 0 ==> r is Some && r->0@ == old(self)@.cells.last() && final(self)@ == (SeriesValue { cells: old(self)@.cells.drop_last(), ..old(self)@ }),
    {
        proof {
            use_type_invariant(&*self);
        }
        let mut cells: Vec<DCell> = Vec::new();
        core::mem::swap(&mut self.cells, &mut cells);
        let r = cells.pop();
        proof {
            if old(self)@.cells.len() > 0 {
                assert(cell_values(cells@) =~= old(self)@.cells.drop_last());
                assert forall|i: int| 0 <= i < cell_values(cells@).len() implies compatible(
                    self.dtype,
                    kind_of(#[trigger] cell_values(cells@)[i]),
                ) by {
                    assert(cell_values(cells@)[i] == old(self)@.cells[i]);
                }
            } else {
                assert(cell_values(cells@) =~= old(self)@.cells);
            }
        }
        self.cells = cells;
        r
    }

    /// The number of cells.
    pub fn len(&self) -> (r: usize)
        ensures
            r == self@.cells.len(),
    {
        self.cells.len()
    }

    /// Whether the series has no cells.
    pub fn is_empty(&self) -> (r: bool)
        ensures
            r == (self@.cells.len() == 0),
    {
        self.cells.len() == 0
    }

    /// The kind of the series.
    pub fn data_type(&self) -> (r: &DType)
        ensures
            *r == self@.dtype,
    {
        &self.dtype
    }

    /// The name of the series.
    pub fn name(&self) -> (r: Option<&String>)
        ensures
            r is Some == self@.name is Some,
            r is Some ==> r->0@ == self@.name->0,
    {
        self.name.as_ref()
    }

    /// Gives the series a name.
    pub fn set_name(&mut self, name: String)
        ensures
            final(self)@ == (SeriesValue { name: Some(name@), ..old(self)@ }),
            final(self).well_formed(),
    {
        proof {
            use_type_invariant(&*self);
        }
        self.name = Some(name);
    }

    /// The cells of the series, each of them compatible with its kind.
    pub fn cells(&self) -> (r: &Vec<DCell>)
        ensures
            cell_values(r@) == self@.cells,
            self.well_formed(),
    {
        proof {
            use_type_invariant(self);
        }
        &self.cells
    }

    /// The cell at `idx`, which is compatible with the kind of the series.
    pub fn index(&self, idx: usize) -> (r: &DCell)
        requires
            idx < self@.cells.len(),
        ensures
            r@ == self@.cells[idx as int],
            compatible(self@.dtype, kind_of(r@)),
    {
        proof {
            use_type_invariant(self);
            assert(self@.cells[idx as int] == self.cells@[idx as int]@);
        }
        &self.cells[idx]
    }

    /// The name of the series, empty where it has none.
    pub fn to_string(&self) -> (r: String)
        ensures
            r@ == match self@.name {
                Some(name) => name,
                None => Seq::empty(),
            },
    {
        match &self.name {
            Some(name) => name.clone(),
            None => String::new(),
        }
    }

    /// The outcome of converting each cell to `data_type`: for each cell the
    /// converted cell, or the text conversion to answer in
    /// [`Series::convert_to`].
    pub fn convert_plan(&self, data_type: DType) -> (r: Vec<Outcome>)
        ensures
            outcome_values(r@) == planned_cells(self@.cells, data_type),
    {
        plan_cells(&self.cells, data_type)
    }

    /// Converts the series to another kind: every cell is converted, and the
    /// series is of that kind from then on.  Where a cell takes the text of a
    /// binary64 value, the answer at the cell's index settles it, and a missing
    /// answer counts as `Invalid`.
    pub fn convert_to(&mut self, data_type: DType, answers: Vec<Answer>)
        ensures
            final(self)@ == (SeriesValue {
                name: old(self)@.name,
                cells: converted_cells(old(self)@.cells, data_type, answer_values(answers@)),
                dtype: data_type,
            }),
            final(self).well_formed(),
    {
        let cells = convert_cells(&self.cells, data_type, &answers);
        proof {
            assert forall|i: int| 0 <= i < cell_values(cells@).len() implies compatible(
                data_type,
                kind_of(#[trigger] cell_values(cells@)[i]),
            ) by {
                lemma_converted_kind(
                    old(self)@.cells[i],
                    data_type,
                    crate::convert::answer_at(answer_values(answers@), i),
                );
            }
        }
        let mut emptied: Vec<DCell> = Vec::new();
        core::mem::swap(&mut self.cells, &mut emptied);
        self.dtype = data_type;
        self.cells = cells;
    }
}

impl Typed for Series {
    open spec fn kind(&self) -> DType {
        self@.dtype
    }

    fn dtype(&self) -> DType {
        self.dtype
    }
}

impl MixedSeries {
    /// A named series of the given cells.
    pub fn new_typed(name: String, vector: Vec<DCell>) -> (r: MixedSeries)
        ensures
            r@ == (MixedSeriesValue { name: Some(name@), cells: cell_values(vector@) }),
    {
        MixedSeries { name: Some(name), cells: vector }
    }

    /// A named series of the given primitive values.
    pub fn new<T: Primitive>(name: String, vector: Vec<T>) -> (r: MixedSeries)
        ensures
            r@ == (MixedSeriesValue { name: Some(name@), cells: primitive_cells(vector@) }),
    {
        MixedSeries { name: Some(name), cells: into_cells(vector) }
    }

    /// The number of cells.
    pub fn len(&self) -> (r: usize)
        ensures
            r == self@.cells.len(),
    {
        self.cells.len()
    }

    /// Whether the series takes the cell: it takes every cell.
    pub fn accepts(&self, cell: &DCell) -> (r: bool)
        ensures
            r,
    {
        true
    }

    /// Appends a cell.  This never fails.
    pub fn push_cell(&mut self, cell: DCell) -> (r: RaccoonResult)
        ensures
            r is Ok,
            final(self)@ == (MixedSeriesValue { cells: old(self)@.cells.push(cell@), ..old(self)@ }),
    {
        self.cells.push(cell);
        proof {
            assert(final(self)@.cells =~= old(self)@.cells.push(cell@));
        }
        Ok(())
    }

    /// Appends a primitive value.  This never fails.
    pub fn push<T: Primitive>(&mut self, val: T) -> (r: RaccoonResult)
        ensures
            r is Ok,
            final(self)@ == (MixedSeriesValue { cells: old(self)@.cells.push(val.cell()), ..old(self)@ }),
    {
        self.push_cell(val.into_cell())
    }

    /// Appends a cell.
    pub fn force_push_cell(&mut self, cell: DCell)
        ensures
            final(self)@ == (MixedSeriesValue { cells: old(self)@.cells.push(cell@), ..old(self)@ }),
    {
        let _ = self.push_cell(cell);
    }

    /// Appends a primitive value.
    pub fn force_push<T: Primitive>(&mut self, val: T)
        ensures
            final(self)@ == (MixedSeriesValue { cells: old(self)@.cells.push(val.cell()), ..old(self)@ }),
    {
        let _ = self.push(val);
    }

    /// The name of the series.
    pub fn name(&self) -> (r: Option<&String>)
        ensures
            r is Some == self@.name is Some,
            r is Some ==> r->0@ == self@.name->0,
    {
        self.name.as_ref()
    }

    /// Gives the series a name.
    pub fn set_name(&mut self, name: String)
        ensures
            final(self)@ == (MixedSeriesValue { name: Some(name@), ..old(self)@ }),
    {
        self.name = Some(name);
    }

    /// The cells of the series.
    pub fn cells(&self) -> (r: &Vec<DCell>)
        ensures
            cell_values(r@) == self@.cells,
    {
        &self.cells
    }

    /// The cell at `idx`.
    pub fn index(&self, idx: usize) -> (r: &DCell)
        requires
            idx < self@.cells.len(),
        ensures
            r@ == self@.cells[idx as int],
    {
        &self.cells[idx]
    }

    /// The cell at `idx`, to be written.  Whatever is written there, the
    /// other cells and the name stay.
    pub fn index_mut(&mut self, idx: usize) -> (r: &mut DCell)
        requires
            idx < old(self)@.cells.len(),
        ensures
            r@ == old(self)@.cells[idx as int],
            final(self)@ == (MixedSeriesValue {
                cells: old(self)@.cells.update(idx as int, final(r)@),
                ..old(self)@
            }),
    {
        proof {
            assert forall|x: DCell| #[trigger]
                cell_values(self.cells@.update(idx as int, x)) == cell_values(self.cells@).update(
                    idx as int,
                    x@,
                ) by {
                assert(cell_values(self.cells@.update(idx as int, x)) =~= cell_values(
                    self.cells@,
                ).update(idx as int, x@));
            }
        }
        &mut self.cells[idx]
    }

    /// The name of the series, empty where it has none.
    pub fn to_string(&self) -> (r: String)
        ensures
            r@ == match self@.name {
                Some(name) => name,
                None => Seq::empty(),
            },
    {
        match &self.name {
            Some(name) => name.clone(),
            None => String::new(),
        }
    }

    /// The outcome of converting each cell to `dtype`: for each cell the
    /// converted cell, or the text conversion to answer in
    /// `astype`.
    pub fn convert_plan(&self, dtype: DType) -> (r: Vec<Outcome>)
        ensures
            outcome_values(r@) == planned_cells(self@.cells, dtype),
    {
        plan_cells(&self.cells, dtype)
    }
}

impl AsType for MixedSeries {
    /// Converts every cell to `dtype`.  Where a cell takes the text of a
    /// binary64 value, the answer at the cell's index settles it, and a missing
    /// answer counts as `Invalid`.
    fn astype(&mut self, dtype: DType, answers: Vec<Answer>)
        ensures
            final(self)@ == (MixedSeriesValue {
                name: old(self)@.name,
                cells: converted_cells(old(self)@.cells, dtype, answer_values(answers@)),
            }),
    {
        let cells = convert_cells(&self.cells, dtype, &answers);
        self.cells = cells;
    }
}

impl AsType for Series {
    /// Converts the series to another kind, as [`Series::convert_to`] does.
    fn astype(&mut self, dtype: DType, answers: Vec<Answer>)
        ensures
            final(self)@ == (SeriesValue {
                name: old(self)@.name,
                cells: converted_cells(old(self)@.cells, dtype, answer_values(answers@)),
                dtype,
            }),
            final(self).well_formed(),
    {
        self.convert_to(dtype, answers)
    }
}

impl Typed for MixedSeries {
    open spec fn kind(&self) -> DType {
        DType::Mixed
    }

    fn dtype(&self) -> DType {
        DType::Mixed
    }
}

impl vstd::std_specs::convert::FromSpecImpl<Series> for MixedSeries {
    open spec fn obeys_from_spec() -> bool {
        true
    }

    closed spec fn from_spec(series: Series) -> MixedSeries {
        MixedSeries { name: series.name, cells: series.cells }
    }
}

impl From<Series> for MixedSeries {
    /// The mixed series of the same name and cells.
    fn from(series: Series) -> (r: MixedSeries)
        ensures
            r@ == mixed_of(series@),
    {
        MixedSeries { name: series.name, cells: series.cells }
    }
}

impl<T: Primitive> vstd::std_specs::convert::FromSpecImpl<Vec<T>> for Series {
    /// The conversion is stated over the model of its result, at `from`.
    open spec fn obeys_from_spec() -> bool {
        false
    }

    open spec fn from_spec(vector: Vec<T>) -> Series {
        arbitrary()
    }
}

impl<T: Primitive> From<Vec<T>> for Series {
    /// The series without a name of the given primitive values, of their
    /// kind; of kind `NA` where there are none.
    fn from(vector: Vec<T>) -> (r: Series)
        ensures
            r@ == (SeriesValue {
                name: None,
                cells: primitive_cells(vector@),
                dtype: if vector@.len() == 0 {
                    DType::NA
                } else {
                    T::primitive_kind()
                },
            }),
            r.well_formed(),
    {
        let mut r = Series::from_vector(String::new(), vector);
        r.name = None;
        r
    }
}

impl<T: Primitive> vstd::std_specs::convert::FromSpecImpl<Vec<T>> for MixedSeries {
    /// The conversion is stated over the model of its result, at `from`.
    open spec fn obeys_from_spec() -> bool {
        false
    }

    open spec fn from_spec(vector: Vec<T>) -> MixedSeries {
        arbitrary()
    }
}

impl<T: Primitive> From<Vec<T>> for MixedSeries {
    /// The series without a name of the given primitive values.
    fn from(vector: Vec<T>) -> (r: MixedSeries)
        ensures
            r@ == (MixedSeriesValue { name: None, cells: primitive_cells(vector@) }),
    {
        MixedSeries { name: None, cells: into_cells(vector) }
    }
}

/// What the strict and the mixed series have in common.
pub trait SeriesLike: AsType {
    /// The name of the series.
    spec fn label(&self) -> Option<Seq<char>>;

    /// The cells of the series.
    spec fn content(&self) -> Seq<CellValue>;

    /// Whether the series takes cells of the given kind.
    spec fn takes(&self, kind: DType) -> bool;

    /// The number of cells.
    fn len(&self) -> (r: usize)
        ensures
            r == self.content().len(),
    ;

    /// Appends a cell, if the series takes its kind; else the series stays
    /// as it is.
    fn push_cell(&mut self, cell: DCell) -> (r: RaccoonResult)
        ensures
            r is Ok <==> old(self).takes(kind_of(cell@)),
            r is Ok ==> final(self).content() == old(self).content().push(cell@),
            r is Err ==> r == Err::<(), RaccoonError>(RaccoonError::InvalidType) && final(self).content() == old(self).content(),
            final(self).label() == old(self).label(),
            forall|kind: DType| final(self).takes(kind) == old(self).takes(kind),
    ;

    /// Whether the series takes the cell.
    fn accepts(&self, cell: &DCell) -> (r: bool)
        ensures
            r == self.takes(kind_of(cell@)),
    ;

    /// The name of the series.
    fn name(&self) -> (r: Option<&String>)
        ensures
            r is Some == self.label() is Some,
            r is Some ==> r->0@ == self.label()->0,
    ;

    /// Gives the series a name.
    fn set_name(&mut self, name: String)
        ensures
            final(self).label() == Some(name@),
            final(self).content() == old(self).content(),
            forall|kind: DType| final(self).takes(kind) == old(self).takes(kind),
    ;

    /// The cells of the series.
    fn cells(&self) -> (r: &Vec<DCell>)
        ensures
            cell_values(r@) == self.content(),
    ;
}

impl SeriesLike for Series {
    open spec fn label(&self) -> Option<Seq<char>> {
        self@.name
    }

    open spec fn content(&self) -> Seq<CellValue> {
        self@.cells
    }

    open spec fn takes(&self, kind: DType) -> bool {
        compatible(self@.dtype, kind)
    }

    fn len(&self) -> (r: usize) {
        Series::len(self)
    }

    fn push_cell(&mut self, cell: DCell) -> (r: RaccoonResult) {
        self.push_entry(cell)
    }

    fn accepts(&self, cell: &DCell) -> (r: bool) {
        Series::accepts(self, cell)
    }

    fn name(&self) -> (r: Option<&String>) {
        Series::name(self)
    }

    fn set_name(&mut self, name: String) {
        Series::set_name(self, name)
    }

    fn cells(&self) -> (r: &Vec<DCell>) {
        Series::cells(self)
    }
}

impl SeriesLike for MixedSeries {
    open spec fn label(&self) -> Option<Seq<char>> {
        self@.name
    }

    open spec fn content(&self) -> Seq<CellValue> {
        self@.cells
    }

    open spec fn takes(&self, kind: DType) -> bool {
        true
    }

    fn len(&self) -> (r: usize) {
        MixedSeries::len(self)
    }

    fn push_cell(&mut self, cell: DCell) -> (r: RaccoonResult) {
        MixedSeries::push_cell(self, cell)
    }

    fn accepts(&self, cell: &DCell) -> (r: bool) {
        MixedSeries::accepts(self, cell)
    }

    fn name(&self) -> (r: Option<&String>) {
        MixedSeries::name(self)
    }

    fn set_name(&mut self, name: String) {
        MixedSeries::set_name(self, name)
    }

    fn cells(&self) -> (r: &Vec<DCell>) {
        MixedSeries::cells(self)
    }
}

} // verus!
