use raccoon::cell::DCell;
use raccoon::dataframe::{DataFrame, DataFrameLike};
use raccoon::dtype::DType;
use raccoon::error::RaccoonError;
use raccoon::float::{Answer, FloatOp, Outcome};
use raccoon::series::{MixedSeries, Series, SeriesLike};
use raccoon::traits::{AsType, Typed};
use raccoon::utils::vec_dtype;

fn text(value: &str) -> DCell {
    DCell::Text(value.to_owned())
}

fn float(value: f64) -> DCell {
    DCell::Float(value.to_bits())
}

fn answers(plan: &Vec<Outcome>) -> Vec<Answer> {
    let mut out = Vec::new();
    for outcome in plan.iter() {
        out.push(match outcome {
            Outcome::Float(FloatOp::Parse(text)) => match text.parse::<f64>() {
                Ok(value) => Answer::Bits(value.to_bits()),
                Err(_) => Answer::Invalid,
            },
            Outcome::Float(FloatOp::Render(_, bits, _)) => {
                Answer::Text(f64::from_bits(*bits).to_string())
            }
            _ => Answer::Invalid,
        });
    }
    out
}

#[test]
fn vector_type_check() {
    let vector = vec![
        DCell::NA,
        DCell::Int(56i64),
        DCell::NA,
        DCell::Int(-123i64),
        DCell::Int(902_348i64),
        DCell::NA,
    ];
    assert_eq!(vec_dtype(&vector), DType::Int);

    // mixed type
    let vector = vec![
        DCell::NA,
        DCell::Int(56i64),
        DCell::NA,
        DCell::Bool(true),
        DCell::Int(902_348i64),
        DCell::NA,
    ];
    assert_eq!(vec_dtype(&vector), DType::Mixed);

    // NA type
    let vector = vec![DCell::NA, DCell::NA, DCell::NA, DCell::NA, DCell::NA, DCell::NA];
    assert_eq!(vec_dtype(&vector), DType::NA);
}

#[test]
fn kind_of_a_vector_edge_cases() {
    assert_eq!(vec_dtype(&Vec::new()), DType::NA);
    assert_eq!(
        vec_dtype(&vec![DCell::NA, DCell::Int(1), DCell::NA, DCell::Bool(true)]),
        DType::Mixed
    );
    assert_eq!(vec_dtype(&vec![DCell::Int(1), DCell::UInt(1)]), DType::Mixed);
    assert_eq!(vec_dtype(&vec![text("a"), DCell::NA]), DType::Text);
    assert_eq!(vec_dtype(&vec![DCell::NA, float(1.0)]), DType::Float);
}

#[test]
fn create_series() {
    let name = String::from("Dog breeds");
    let mut series = Series::new(name, DType::Text);
    let result = series.push_entry(text("Labrador"));
    assert!(result.is_ok());
    let result = series.push_entry(DCell::NA);
    assert!(result.is_ok());
    let result = series.push_entry(text("Golden retriever"));
    assert!(result.is_ok());
    let result = series.push_entry(DCell::Int(25));
    assert!(result.is_err());
    assert_eq!(Some(&"Dog breeds".to_owned()), series.name());
    assert_eq!(3, series.len());
}

#[test]
fn convert_series() {
    let name = String::from("Numbers");
    let mut series = Series::new(name, DType::Text);
    let items = vec![text("1"), text("2"), text("3"), text(""), text("4")];
    let result = series.push_entry_vec(items);
    assert!(result.is_ok());
    series.convert_to(DType::UInt, Vec::new());
    assert_eq!(Some(&"Numbers".to_owned()), series.name());
    assert_eq!(&DType::UInt, series.data_type());
    assert_eq!(&DCell::UInt(1), series.index(0usize));
    assert_eq!(&DCell::UInt(2), series.index(1usize));
    assert_eq!(&DCell::UInt(3), series.index(2usize));
    assert_eq!(&DCell::NA, series.index(3usize));
    assert_eq!(&DCell::UInt(4), series.index(4usize));
}

#[test]
fn push_raw_entries() {
    let mut series = Series::new("name".to_owned(), DType::Int);
    let result = series.push_vec(vec![0, 1, 2]);
    assert!(result.is_ok());
    assert_eq!(&DCell::Int(0), series.index(0usize));
    assert_eq!(&DCell::Int(1), series.index(1usize));
    assert_eq!(&DCell::Int(2), series.index(2usize));
    let result = series.push(3);
    assert!(result.is_ok());
    assert_eq!(&DCell::Int(3), series.index(3usize));
    let result = series.push(true);
    assert!(result.is_err());
}

#[test]
fn pop_items() {
    let mut series = Series::from(vec![1, 2, 3, 4]);
    assert_eq!(Some(DCell::Int(4)), series.pop_entry());
    assert_eq!(Some(DCell::Int(3)), series.pop_entry());
    assert_eq!(Some(DCell::Int(2)), series.pop_entry());
    assert_eq!(Some(DCell::Int(1)), series.pop_entry());
    assert_eq!(None, series.pop_entry());
    assert_eq!(None, series.pop_entry());
    assert!(series.is_empty());
}

#[test]
fn construction_from_vector() {
    let vec = vec![1, 2, 3, 4, 5, 6, 7];
    let series = Series::from_vector("Some series".to_owned(), vec);
    assert_eq!(Some(&"Some series".to_owned()), series.name());
    assert_eq!(&DType::Int, series.data_type());
    assert_eq!(&DCell::Int(1), series.index(0usize));
    assert_eq!(&DCell::Int(2), series.index(1usize));
    assert_eq!(&DCell::Int(3), series.index(2usize));
    assert_eq!(&DCell::Int(4), series.index(3usize));
    assert_eq!(&DCell::Int(5), series.index(4usize));
    assert_eq!(&DCell::Int(6), series.index(5usize));
    assert_eq!(&DCell::Int(7), series.index(6usize));

    let vec: Vec<u64> = Vec::new();
    let series = Series::from_vector("empty".to_owned(), vec);
    assert_eq!(Some(&"empty".to_owned()), series.name());
    assert_eq!(&DType::NA, series.data_type());
}

#[test]
fn equality() {
    let series = Series::from(vec![0, 1, 2, 3]);
    let mut mseries = MixedSeries::from(vec![0, 1, 2, 3]);
    assert!(series == mseries);
    assert!(series == vec![0, 1, 2, 3]);
    assert!(mseries == vec![0, 1, 2, 3]);

    mseries.set_name("random".to_owned());
    assert!(series != mseries);
    assert!(mseries == vec![0, 1, 2, 3]);
}

#[test]
fn equality_of_series_compares_names_and_cells() {
    let a = Series::from_vector("a".to_owned(), vec![1u8, 2]);
    let b = Series::from_vector("a".to_owned(), vec![1u64, 2]);
    let c = Series::from_vector("a".to_owned(), vec![1u64, 2, 3]);
    let d = Series::from_vector("a".to_owned(), vec![1i64, 2]);
    assert!(a == b);
    assert!(a != c);
    assert!(a != d);
    assert!(a == vec![1u8, 2, 3]);
    assert!(a != vec![2u8]);
    let m = MixedSeries::new("a".to_owned(), vec![1u8, 2]);
    assert!(m == a);
    assert!(m == MixedSeries::new_typed("a".to_owned(), vec![DCell::UInt(1), DCell::UInt(2)]));
}

#[test]
fn a_push_succeeds_exactly_when_the_kinds_are_compatible() {
    let kinds = [
        DType::Int,
        DType::UInt,
        DType::Float,
        DType::Char,
        DType::Bool,
        DType::Text,
        DType::NA,
        DType::Mixed,
    ];
    let cells = [
        DCell::Int(1),
        DCell::UInt(1),
        float(1.0),
        DCell::Char('c'),
        DCell::Bool(true),
        text("t"),
        DCell::NA,
    ];
    for kind in kinds.iter() {
        for cell in cells.iter() {
            let mut series = Series::new("s".to_owned(), *kind);
            assert_eq!(series.accepts(cell), kind.equals(&cell.dtype()));
            let result = series.push_entry(cell.clone());
            assert_eq!(result.is_ok(), kind.equals(&cell.dtype()));
            if result.is_ok() {
                assert_eq!(series.len(), 1);
                assert_eq!(series.index(0), cell);
            } else {
                assert_eq!(result, Err(RaccoonError::InvalidType));
                assert_eq!(series.len(), 0);
            }
        }
    }
}

#[test]
fn pushing_a_boolean_to_an_integer_series_is_refused() {
    let mut series = Series::new("n".to_owned(), DType::Int);
    assert_eq!(series.push_entry(DCell::Bool(true)), Err(RaccoonError::InvalidType));
    assert!(series.is_empty());
}

#[test]
fn a_batch_is_pushed_whole_or_not_at_all() {
    let mut series = Series::new("n".to_owned(), DType::Int);
    assert_eq!(series.push_entry_vec(vec![DCell::Int(1), DCell::NA, DCell::Int(2)]), Ok(()));
    assert_eq!(series.len(), 3);
    assert_eq!(
        series.push_entry_vec(vec![DCell::Int(3), DCell::Bool(true), DCell::Int(4)]),
        Err(RaccoonError::InvalidType)
    );
    assert_eq!(series.len(), 3);
    assert_eq!(series.cells(), &vec![DCell::Int(1), DCell::NA, DCell::Int(2)]);
    assert_eq!(series.push_entry_vec(Vec::new()), Ok(()));
    assert_eq!(series.push_vec(Vec::<bool>::new()), Ok(()));
    assert_eq!(series.push_vec(vec![true]), Err(RaccoonError::InvalidType));
    assert_eq!(series.len(), 3);
}

#[test]
fn a_series_from_cells_has_their_kind() {
    let vector = vec![DCell::Int(-213), DCell::NA, DCell::Bool(true), text("some text")];
    let result = Series::new_typed("my typed series".to_owned(), vector);
    assert_eq!(result.err(), Some(RaccoonError::MixedTypeError));

    let vector = vec![DCell::Int(-213), DCell::NA, DCell::Int(-456), DCell::Int(905_843)];
    let series = Series::new_typed("my other typed series".to_owned(), vector.clone()).unwrap();
    assert_eq!(series.cells(), &vector);
    assert_eq!(series.dtype(), DType::Int);

    let series = Series::new_typed("none".to_owned(), vec![DCell::NA, DCell::NA]).unwrap();
    assert_eq!(series.dtype(), DType::NA);
    let series = Series::new_typed("none".to_owned(), Vec::new()).unwrap();
    assert_eq!(series.dtype(), DType::NA);
    assert!(series.is_empty());
}

#[test]
fn a_series_of_missing_kind_takes_every_cell() {
    let mut series = Series::new_typed("none".to_owned(), vec![DCell::NA]).unwrap();
    assert_eq!(series.push_entry(DCell::Int(1)), Ok(()));
    assert_eq!(series.push_entry(DCell::Bool(true)), Ok(()));
    assert_eq!(series.dtype(), DType::NA);
    let mut series = Series::new("mixed".to_owned(), DType::Mixed);
    assert_eq!(series.push_entry(DCell::Int(1)), Err(RaccoonError::InvalidType));
    assert_eq!(series.push_entry(DCell::NA), Ok(()));
}

#[test]
fn names() {
    let mut series = Series::with_capacity("series1".to_owned(), DType::Int, 10);
    assert!(series.is_empty());
    assert_eq!(series.to_string(), "series1");
    series.set_name("My new name".to_owned());
    assert_eq!(series.name(), Some(&"My new name".to_owned()));
    let mut mseries = MixedSeries::from(vec![true, false, true]);
    assert_eq!(mseries.name(), None);
    assert_eq!(mseries.to_string(), "");
    mseries.set_name("some name".to_owned());
    assert_eq!(mseries.name(), Some(&"some name".to_owned()));
    assert_eq!(Series::from(vec![1u8]).name(), None);
}

#[test]
fn a_mixed_series_takes_and_replaces_every_cell() {
    let mut mseries = MixedSeries::new("series1".to_owned(), vec![1, 2, 3, 4]);
    assert!(mseries.accepts(&DCell::Bool(true)));
    assert!(mseries.push(true).is_ok());
    mseries.force_push('c');
    mseries.force_push_cell(text("t"));
    assert!(mseries.push_cell(DCell::NA).is_ok());
    assert_eq!(mseries.len(), 8);
    assert_eq!(mseries.index(4), &DCell::Bool(true));
    assert_eq!(mseries.index(5), &DCell::Char('c'));
    *mseries.index_mut(5) = float(123.345);
    assert_eq!(mseries.index(5), &float(123.345));
    assert_eq!(mseries.index(4), &DCell::Bool(true));
    assert_eq!(mseries.index(6), &text("t"));
    assert_eq!(mseries.dtype(), DType::Mixed);
    assert_eq!(mseries.name(), Some(&"series1".to_owned()));
}

#[test]
fn a_mixed_series_becomes_a_strict_one() {
    let vector = vec![
        DCell::NA,
        DCell::Int(-34),
        DCell::Bool(true),
        text("543.645"),
        DCell::Char('z'),
        DCell::UInt(90_321),
    ];
    let mseries = MixedSeries::new_typed("mixed series".to_owned(), vector);
    let plan = mseries.convert_plan(DType::Float);
    let series = Series::from_mixed(mseries, DType::Float, answers(&plan));
    let expected = vec![
        DCell::NA,
        float(-34f64),
        float(1f64),
        float(543.645f64),
        float(122f64),
        float(90_321f64),
    ];
    assert_eq!(series.cells(), &expected);
    assert_eq!(series.dtype(), DType::Float);
    assert_eq!(series.name(), Some(&"mixed series".to_owned()));
}

#[test]
fn a_mixed_series_becomes_a_text_series() {
    let vector = vec![DCell::Int(-213), DCell::NA, DCell::Bool(true), text("some text"), float(0.5)];
    let mseries = MixedSeries::new_typed("mixed series".to_owned(), vector);
    let plan = mseries.convert_plan(DType::Text);
    assert_eq!(plan[0], Outcome::Done(text("-213")));
    assert_eq!(plan[4], Outcome::Float(FloatOp::Render(String::new(), 0.5f64.to_bits(), String::new())));
    let series = Series::from_mixed(mseries, DType::Text, answers(&plan));
    assert_eq!(series.dtype(), DType::Text);
    assert_eq!(series.index(2), &text("true"));
    assert_eq!(series.index(1), &DCell::NA);
    assert_eq!(series.index(4), &text("0.5"));
    assert_eq!(series.name(), Some(&"mixed series".to_owned()));
}

#[test]
fn a_computation_without_an_answer_gives_a_missing_cell() {
    let mut series = Series::from_vector("n".to_owned(), vec!["1.5".to_owned(), "2".to_owned()]);
    series.convert_to(DType::Float, vec![Answer::Bits(1.5f64.to_bits())]);
    assert_eq!(series.cells(), &vec![float(1.5), DCell::NA]);
    assert_eq!(series.dtype(), DType::Float);
    let mut series = Series::from_vector("n".to_owned(), vec![1i64, 2]);
    series.convert_to(DType::Float, Vec::new());
    assert_eq!(series.cells(), &vec![float(1.0), float(2.0)]);
}

#[test]
fn conversion_to_booleans() {
    let mut mseries = MixedSeries::from(vec![1, 0, 0, 5]);
    mseries.force_push(true);
    mseries.force_push_cell(float(6.43));
    mseries.astype(DType::Bool, Vec::new());
    let expected = vec![
        DCell::Bool(true),
        DCell::Bool(false),
        DCell::Bool(false),
        DCell::Bool(true),
        DCell::Bool(true),
        DCell::Bool(true),
    ];
    assert_eq!(mseries.cells(), &expected);
}

#[test]
fn strict_to_mixed_and_back() {
    let vector = vec![DCell::Int(-213), DCell::NA, DCell::Int(-456), DCell::Int(905_843)];
    let series = Series::new_typed("numbers".to_owned(), vector.clone()).unwrap();
    let kind = series.dtype();
    let mseries = MixedSeries::from(series);
    assert_eq!(mseries.cells(), &vector);
    let back = Series::from_mixed(mseries, kind, Vec::new());
    assert_eq!(back.cells(), &vector);
    assert_eq!(back.dtype(), DType::Int);
    assert_eq!(back.name(), Some(&"numbers".to_owned()));

    let vector = vec![float(1.5), DCell::NA, float(-0.0)];
    let series = Series::new_typed("floats".to_owned(), vector.clone()).unwrap();
    let back = Series::from_mixed(MixedSeries::from(series), DType::Float, Vec::new());
    assert_eq!(back.cells(), &vector);
}

#[test]
fn a_new_dataframe_is_empty() {
    let df = DataFrame::new();
    assert!(df.is_empty());
}

fn push_all<S: SeriesLike>(series: &mut S, cells: Vec<DCell>) -> usize {
    let mut taken = 0;
    for cell in cells {
        assert_eq!(series.accepts(&cell), series.accepts(&cell.clone()));
        if SeriesLike::push_cell(series, cell).is_ok() {
            taken += 1;
        }
    }
    assert_eq!(SeriesLike::len(series), SeriesLike::cells(series).len());
    taken
}

#[test]
fn both_series_through_their_common_trait() {
    let cells = vec![DCell::Int(1), DCell::Bool(true), DCell::NA, DCell::Int(2)];
    let mut strict = Series::new("strict".to_owned(), DType::Int);
    assert_eq!(push_all(&mut strict, cells.clone()), 3);
    assert_eq!(strict.cells(), &vec![DCell::Int(1), DCell::NA, DCell::Int(2)]);
    let mut mixed = MixedSeries::new_typed("mixed".to_owned(), Vec::new());
    assert_eq!(push_all(&mut mixed, cells.clone()), 4);
    assert_eq!(mixed.cells(), &cells);
    SeriesLike::set_name(&mut mixed, "renamed".to_owned());
    assert_eq!(SeriesLike::name(&mixed), Some(&"renamed".to_owned()));
}

#[test]
fn conversion_in_place() {
    let mut cell = DCell::Bool(true);
    cell.astype(DType::Int, Vec::new());
    assert_eq!(cell, DCell::Int(1));
    cell.astype(DType::Float, Vec::new());
    assert_eq!(cell, float(1.0));
    cell.astype(DType::Text, vec![Answer::Text("1".to_owned())]);
    assert_eq!(cell, text("1"));
    cell.astype(DType::Float, Vec::new());
    assert_eq!(cell, DCell::NA);

    let mut series = Series::from_vector("n".to_owned(), vec![1u8, 0, 7]);
    series.astype(DType::Bool, Vec::new());
    assert_eq!(series.dtype(), DType::Bool);
    assert_eq!(series.cells(), &vec![DCell::Bool(true), DCell::Bool(false), DCell::Bool(true)]);
}
