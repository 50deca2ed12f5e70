//! Conversions of whole vectors: primitives into cells, and cells to a kind.

use vstd::prelude::*;
use crate::cell::{converted, kind_of, CellValue, DCell};
use crate::dtype::{compatible, DType};
use crate::float::{resolved, Answer, AnswerValue, Outcome, OutcomeValue};
use crate::traits::Primitive;
use crate::utils::cell_values;

verus! {

/// The models of a sequence of answers.
pub open spec fn answer_values(answers: Seq<Answer>) -> Seq<AnswerValue> {
    answers.map_values(|a: Answer| a@)
}

/// The models of a sequence of outcomes.
pub open spec fn outcome_values(outcomes: Seq<Outcome>) -> Seq<OutcomeValue> {
    outcomes.map_values(|o: Outcome| o@)
}

/// The cells that hold a sequence of primitive values.
pub open spec fn primitive_cells<T: Primitive>(values: Seq<T>) -> Seq<CellValue> {
    values.map_values(|v: T| v.cell())
}

/// The answer for the cell at `i`: the one at that place, and `Invalid`
/// where the answers do not reach that far.
pub open spec fn answer_at(answers: Seq<AnswerValue>, i: int) -> AnswerValue {
    if 0 <= i < answers.len() {
        answers[i]
    } else {
        AnswerValue::Invalid
    }
}

/// The outcome of converting each cell to `dtype`.
pub open spec fn planned_cells(cells: Seq<CellValue>, dtype: DType) -> Seq<OutcomeValue> {
    Seq::new(cells.len(), |i: int| converted(cells[i], dtype))
}

/// Each cell converted to `dtype`, the text conversion of the cell at `i`
/// settled by the answer at `i`.
pub open spec fn converted_cells(
    cells: Seq<CellValue>,
    dtype: DType,
    answers: Seq<AnswerValue>,
) -> Seq<CellValue> {
    Seq::new(cells.len(), |i: int| resolved(converted(cells[i], dtype), answer_at(answers, i)))
}

/// A converted cell is of the target kind or missing, whatever the answer.
pub proof fn lemma_converted_kind(c: CellValue, dtype: DType, answer: AnswerValue)
    ensures
        ({
            let r = resolved(converted(c, dtype), answer);
            r is NA || kind_of(r) == dtype
        }),
        compatible(dtype, kind_of(resolved(converted(c, dtype), answer))),
{
}

/// The cells that hold the given primitive values, in their order.
pub fn into_cells<T: Primitive>(vector: Vec<T>) -> (r: Vec<DCell>)
    ensures
        cell_values(r@) == primitive_cells(vector@),
        forall|i: int| 0 <= i < r@.len() ==> kind_of(#[trigger] r@[i]@) == T::primitive_kind(),
{
    let ghost values = vector@;
    let mut rest = vector;
    let mut backwards: Vec<DCell> = Vec::new();
    while rest.len() > 0
        invariant
            rest@.len() + backwards@.len() == values.len(),
            rest@ == values.take(rest@.len() as int),
            forall|j: int|
                0 <= j < backwards@.len() ==> (#[trigger] backwards@[j])@ == values[values.len() - 1
                    - j].cell(),
            forall|j: int|
                0 <= j < backwards@.len() ==> kind_of((#[trigger] backwards@[j])@)
                    == T::primitive_kind(),
        decreases rest@.len(),
    {
        let value = rest.pop().unwrap();
        backwards.push(value.into_cell());
    }
    let mut out: Vec<DCell> = Vec::new();
    while backwards.len() > 0
        invariant
            out@.len() + backwards@.len() == values.len(),
            forall|j: int|
                0 <= j < backwards@.len() ==> (#[trigger] backwards@[j])@ == values[values.len() - 1
                    - j].cell(),
            forall|j: int|
                0 <= j < backwards@.len() ==> kind_of((#[trigger] backwards@[j])@)
                    == T::primitive_kind(),
            forall|i: int| 0 <= i < out@.len() ==> (#[trigger] out@[i])@ == values[i].cell(),
            forall|i: int| 0 <= i < out@.len() ==> kind_of((#[trigger] out@[i])@) == T::primitive_kind(),
        decreases backwards@.len(),
    {
        let cell = backwards.pop().unwrap();
        out.push(cell);
    }
    assert(cell_values(out@) =~= primitive_cells(values));
    out
}

/// The outcome of converting each cell to `dtype`.
pub fn plan_cells(cells: &Vec<DCell>, dtype: DType) -> (r: Vec<Outcome>)
    ensures
        outcome_values(r@) == planned_cells(cell_values(cells@), dtype),
{
    let mut out: Vec<Outcome> = Vec::new();
    let mut i: usize = 0;
    while i < cells.len()
        invariant
            i <= cells.len(),
            out@.len() == i,
            forall|j: int| 0 <= j < i ==> (#[trigger] out@[j])@ == converted(cells@[j]@, dtype),
        decreases cells.len() - i,
    {
        out.push(cells[i].convert_to(dtype));
        i += 1;
    }
    assert(outcome_values(out@) =~= planned_cells(cell_values(cells@), dtype));
    out
}

/// Each cell converted to `dtype`, the text conversion of the cell at `i`
/// settled by the answer at `i`.
pub fn convert_cells(cells: &Vec<DCell>, dtype: DType, answers: &Vec<Answer>) -> (r: Vec<DCell>)
    ensures
        cell_values(r@) == converted_cells(cell_values(cells@), dtype, answer_values(answers@)),
{
    let mut out: Vec<DCell> = Vec::new();
    let mut i: usize = 0;
    while i < cells.len()
        invariant
            i <= cells.len(),
            out@.len() == i,
            forall|j: int|
                0 <= j < i ==> (#[trigger] out@[j])@ == resolved(
                    converted(cells@[j]@, dtype),
                    answer_at(answer_values(answers@), j),
                ),
        decreases cells.len() - i,
    {
        let answer = if i < answers.len() {
            answers[i].clone()
        } else {
            Answer::Invalid
        };
        out.push(cells[i].convert_to(dtype).resolve(answer));
        i += 1;
    }
    assert(cell_values(out@) =~= converted_cells(
        cell_values(cells@),
        dtype,
        answer_values(answers@),
    ));
    out
}

} // verus!
