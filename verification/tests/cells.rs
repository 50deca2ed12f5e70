use std::cmp::Ordering;

use raccoon::cell::DCell;
use raccoon::dtype::{DataType, DType};
use raccoon::error::RaccoonError;
use raccoon::float::{bool_bits, is_nonzero, Answer, FloatOp, Outcome};
use raccoon::traits::{Primitive, TryFrom, Typed};

fn answer(op: &FloatOp) -> Answer {
    match op {
        FloatOp::Parse(text) => match text.parse::<f64>() {
            Ok(value) => Answer::Bits(value.to_bits()),
            Err(_) => Answer::Invalid,
        },
        FloatOp::Render(_, bits, _) => Answer::Text(f64::from_bits(*bits).to_string()),
    }
}

fn run(outcome: Outcome) -> DCell {
    match outcome {
        Outcome::Done(cell) => cell,
        Outcome::Float(op) => {
            let a = answer(&op);
            op.settle(a)
        }
    }
}

fn float(value: f64) -> DCell {
    DCell::Float(value.to_bits())
}

fn text(value: &str) -> DCell {
    DCell::Text(value.to_owned())
}

#[test]
fn conversion() {
    let entry = DCell::Int(-42);
    assert_eq!(float(-42f64), run(entry.convert_to(DType::Float)));

    let entry = float(12.4);
    assert_eq!(DCell::Bool(true), run(entry.convert_to(DType::Bool)));

    let entry = DCell::Int(-42);
    assert_eq!(DCell::NA, run(entry.convert_to(DType::UInt)));

    let entry = text("123.345");
    assert_eq!(float(123.345f64), run(entry.convert_to(DType::Float)));

    let entry = text("z");
    assert_eq!(DCell::Char('z'), run(entry.convert_to(DType::Char)));

    let entry = float(-42.4353f64);
    assert_eq!(DCell::Int(-42), run(entry.convert_to(DType::Int)));
}

#[test]
fn kinds_of_cells() {
    assert_eq!(DCell::Int(-353).dtype(), DType::Int);
    assert_eq!(DCell::UInt(454).dtype(), DType::UInt);
    assert_eq!(float(-90.345).dtype(), DType::Float);
    assert_eq!(DCell::Char('a').dtype(), DType::Char);
    assert_eq!(DCell::Bool(true).dtype(), DType::Bool);
    assert_eq!(text("Some text").dtype(), DType::Text);
    assert_eq!(DCell::NA.dtype(), DType::NA);
    assert!(DCell::NA.is_nan());
    assert!(!DCell::Int(0).is_nan());
    assert!(!float(f64::NAN).is_nan());
    assert_eq!(Typed::dtype(&DCell::Bool(false)), DType::Bool);
}

#[test]
fn reading_cells_from_text() {
    assert_eq!(run(DCell::from_str("54")), DCell::UInt(54));
    assert_eq!(run(DCell::from_str("-123")), DCell::Int(-123));
    assert_eq!(run(DCell::from_str("90.87")), float(90.87));
    assert_eq!(run(DCell::from_str("true")), DCell::Bool(true));
    assert_eq!(run(DCell::from_str("false")), DCell::Bool(false));
    assert_eq!(run(DCell::from_str("a")), DCell::Char('a'));
    assert_eq!(run(DCell::from_str("some random text")), text("some random text"));
    assert_eq!(run(DCell::from_str("")), text(""));
    assert_eq!(run(DCell::from_str("1e3")), float(1000.0));
    assert_eq!(run(DCell::from_str("18446744073709551616")), float(18446744073709551616.0));
    assert_eq!(run(DCell::from_str("NA")), text("NA"));
}

#[test]
fn a_single_digit_is_an_integer_not_a_character() {
    assert_eq!(DCell::from_str("5"), Outcome::Done(DCell::UInt(5)));
    assert_eq!(DCell::from_str("+5"), Outcome::Done(DCell::UInt(5)));
    assert_eq!(DCell::from_str("-5"), Outcome::Done(DCell::Int(-5)));
    assert_eq!(run(DCell::from_str("x")), DCell::Char('x'));
    assert_eq!(run(DCell::from_str("-")), DCell::Char('-'));
}

#[test]
fn reading_asks_for_a_float_only_where_the_text_writes_one() {
    assert_eq!(DCell::from_str("1.5"), Outcome::Float(FloatOp::Parse("1.5".to_owned())));
    assert_eq!(DCell::from_str("-inf"), Outcome::Float(FloatOp::Parse("-inf".to_owned())));
    assert_eq!(DCell::from_str("NaN"), Outcome::Float(FloatOp::Parse("NaN".to_owned())));
    assert_eq!(
        DCell::from_str("18446744073709551616"),
        Outcome::Float(FloatOp::Parse("18446744073709551616".to_owned()))
    );
    assert_eq!(DCell::from_str("true"), Outcome::Done(DCell::Bool(true)));
    assert_eq!(DCell::from_str("q"), Outcome::Done(DCell::Char('q')));
    assert_eq!(DCell::from_str("."), Outcome::Done(DCell::Char('.')));
    assert_eq!(DCell::from_str("1e"), Outcome::Done(text("1e")));
    assert_eq!(DCell::from_str("NA"), Outcome::Done(text("NA")));
    assert_eq!(DCell::from_str(""), Outcome::Done(text("")));
}

#[test]
fn texts_of_cells() {
    assert_eq!(DCell::Int(-34).to_string(), Some("-34".to_owned()));
    assert_eq!(DCell::UInt(34).to_string(), Some("34".to_owned()));
    assert_eq!(DCell::Char('x').to_string(), Some("x".to_owned()));
    assert_eq!(DCell::Bool(false).to_string(), Some("false".to_owned()));
    assert_eq!(text("hello").to_string(), Some("hello".to_owned()));
    assert_eq!(DCell::NA.to_string(), Some("NA".to_owned()));
    assert_eq!(float(1.5).to_string(), None);
}

#[test]
fn conversions_to_integers() {
    assert_eq!(run(DCell::Int(7).convert_to(DType::Int)), DCell::Int(7));
    assert_eq!(run(DCell::UInt(7).convert_to(DType::Int)), DCell::NA);
    assert_eq!(run(float(7.9).convert_to(DType::Int)), DCell::Int(7));
    assert_eq!(run(float(-7.9).convert_to(DType::Int)), DCell::Int(-7));
    assert_eq!(run(DCell::Bool(true).convert_to(DType::Int)), DCell::Int(1));
    assert_eq!(run(DCell::Char('A').convert_to(DType::Int)), DCell::Int(65));
    assert_eq!(run(text("-12").convert_to(DType::Int)), DCell::Int(-12));
    assert_eq!(run(text("12.5").convert_to(DType::Int)), DCell::NA);
    assert_eq!(run(DCell::NA.convert_to(DType::Int)), DCell::NA);

    assert_eq!(run(DCell::UInt(7).convert_to(DType::UInt)), DCell::UInt(7));
    assert_eq!(run(DCell::Int(7).convert_to(DType::UInt)), DCell::NA);
    assert_eq!(run(float(7.0).convert_to(DType::UInt)), DCell::NA);
    assert_eq!(run(DCell::Bool(false).convert_to(DType::UInt)), DCell::UInt(0));
    assert_eq!(run(DCell::Char('A').convert_to(DType::UInt)), DCell::UInt(65));
    assert_eq!(run(text("54").convert_to(DType::UInt)), DCell::UInt(54));
    assert_eq!(run(text("-54").convert_to(DType::UInt)), DCell::NA);
    assert_eq!(run(text("").convert_to(DType::UInt)), DCell::NA);
}

#[test]
fn conversions_to_floats() {
    assert_eq!(run(DCell::Int(-34).convert_to(DType::Float)), float(-34.0));
    assert_eq!(run(DCell::UInt(90_321).convert_to(DType::Float)), float(90_321.0));
    assert_eq!(run(float(2.5).convert_to(DType::Float)), float(2.5));
    assert_eq!(run(DCell::Bool(true).convert_to(DType::Float)), float(1.0));
    assert_eq!(run(DCell::Bool(false).convert_to(DType::Float)), float(0.0));
    assert_eq!(run(DCell::Char('A').convert_to(DType::Float)), float(65.0));
    assert_eq!(run(text("543.645").convert_to(DType::Float)), float(543.645));
    assert_eq!(run(text("abc").convert_to(DType::Float)), DCell::NA);
    assert_eq!(run(DCell::NA.convert_to(DType::Float)), DCell::NA);
    assert_eq!(DCell::Bool(true).convert_to(DType::Float), Outcome::Done(float(1.0)));
    assert_eq!(DCell::Int(3).convert_to(DType::Float), Outcome::Done(float(3.0)));
    assert_eq!(
        DCell::UInt(u64::MAX).convert_to(DType::Float),
        Outcome::Done(float(18446744073709551616.0))
    );
    assert_eq!(float(-2.5).convert_to(DType::Int), Outcome::Done(DCell::Int(-2)));
    assert_eq!(text("x").convert_to(DType::Float), Outcome::Done(DCell::NA));
    assert_eq!(
        text("1e3").convert_to(DType::Float),
        Outcome::Float(FloatOp::Parse("1e3".to_owned()))
    );
}

#[test]
fn conversions_to_booleans_characters_and_texts() {
    assert_eq!(run(DCell::Int(0).convert_to(DType::Bool)), DCell::Bool(false));
    assert_eq!(run(DCell::Int(-5).convert_to(DType::Bool)), DCell::Bool(true));
    assert_eq!(run(DCell::UInt(5).convert_to(DType::Bool)), DCell::Bool(true));
    assert_eq!(run(float(6.43).convert_to(DType::Bool)), DCell::Bool(true));
    assert_eq!(run(float(0.0).convert_to(DType::Bool)), DCell::Bool(false));
    assert_eq!(run(float(-0.0).convert_to(DType::Bool)), DCell::Bool(false));
    assert_eq!(run(float(f64::NAN).convert_to(DType::Bool)), DCell::Bool(true));
    assert_eq!(run(DCell::Char('a').convert_to(DType::Bool)), DCell::NA);
    assert_eq!(run(text("true").convert_to(DType::Bool)), DCell::Bool(true));
    assert_eq!(run(text("yes").convert_to(DType::Bool)), DCell::NA);

    assert_eq!(run(DCell::Char('c').convert_to(DType::Char)), DCell::Char('c'));
    assert_eq!(run(text("zz").convert_to(DType::Char)), DCell::NA);
    assert_eq!(run(DCell::Int(5).convert_to(DType::Char)), DCell::NA);
    assert_eq!(run(DCell::Bool(true).convert_to(DType::Char)), DCell::NA);

    assert_eq!(run(DCell::Int(-213).convert_to(DType::Text)), text("-213"));
    assert_eq!(run(DCell::UInt(213).convert_to(DType::Text)), text("213"));
    assert_eq!(run(float(1.5).convert_to(DType::Text)), text("1.5"));
    assert_eq!(run(DCell::Bool(true).convert_to(DType::Text)), text("true"));
    assert_eq!(run(DCell::Char('c').convert_to(DType::Text)), text("c"));
    assert_eq!(run(text("t").convert_to(DType::Text)), text("t"));
    assert_eq!(run(DCell::NA.convert_to(DType::Text)), DCell::NA);

    assert_eq!(run(DCell::Int(5).convert_to(DType::NA)), DCell::NA);
    assert_eq!(run(text("t").convert_to(DType::Mixed)), DCell::NA);
}

#[test]
fn float_bits() {
    assert!(is_nonzero(1.0f64.to_bits()));
    assert!(!is_nonzero(0.0f64.to_bits()));
    assert!(!is_nonzero((-0.0f64).to_bits()));
    assert!(is_nonzero(f64::NAN.to_bits()));
    assert!(is_nonzero(f64::MIN_POSITIVE.to_bits()));
    assert_eq!(bool_bits(true), 1.0f64.to_bits());
    assert_eq!(bool_bits(false), 0.0f64.to_bits());
}

#[test]
fn converting_twice_is_converting_once() {
    let cells = [
        DCell::Int(-3),
        DCell::UInt(3),
        float(2.75),
        DCell::Char('7'),
        DCell::Bool(true),
        text("12"),
        text("true"),
        text("x"),
        DCell::NA,
    ];
    let kinds = [
        DType::Int,
        DType::UInt,
        DType::Float,
        DType::Char,
        DType::Bool,
        DType::Text,
        DType::NA,
        DType::Mixed,
    ];
    for cell in cells.iter() {
        for kind in kinds.iter() {
            let once = run(cell.convert_to(*kind));
            assert_eq!(once.convert_to(*kind), Outcome::Done(once.clone()));
        }
    }
}

#[test]
fn texts_read_back() {
    let cells = [
        DCell::UInt(0),
        DCell::UInt(54),
        DCell::Int(-123),
        DCell::Bool(true),
        DCell::Bool(false),
    ];
    for cell in cells.iter() {
        let shown = cell.to_string().unwrap();
        let back = run(run(DCell::from_str(shown.as_str())).convert_to(cell.dtype()));
        assert_eq!(&back, cell);
    }
    let cell = float(-100_000.000_1);
    let shown = run(cell.convert_to(DType::Text));
    let back = match shown {
        DCell::Text(s) => run(run(DCell::from_str(s.as_str())).convert_to(DType::Float)),
        _ => DCell::NA,
    };
    assert_eq!(back, cell);
    // A signed integer that is not negative reads back as an unsigned one,
    // which does not convert to a signed one.
    assert_eq!(run(run(DCell::from_str("5")).convert_to(DType::Int)), DCell::NA);
}

#[test]
fn sums() {
    assert_eq!(run(DCell::Int(-34).add(DCell::Int(12))), DCell::Int(-22));
    assert_eq!(run(DCell::UInt(34).add(DCell::UInt(12))), DCell::UInt(46));
    assert_eq!(run(DCell::Int(-34).add(text("hello"))), text("-34hello"));
    assert_eq!(run(DCell::Int(-34).add(text("hello world"))), text("-34hello world"));
    assert_eq!(run(float(-100_000.000_1).add(DCell::Int(-12))), float(-100_012.000_1));
    assert_eq!(run(DCell::Char('x').add(DCell::Bool(false))), text("xfalse"));
    assert_eq!(run(DCell::Int(-23).add(DCell::UInt(234_567))), float(234_544f64));
    assert_eq!(run(DCell::Bool(true).add(DCell::Bool(false))), DCell::Bool(false));
    assert_eq!(run(DCell::Bool(true).add(DCell::Bool(true))), DCell::Bool(true));
    assert_eq!(run(DCell::Char('a').add(DCell::Char('b'))), text("ab"));
    assert_eq!(run(text("hello!").add(text("world!"))), text("hello!world!"));
    assert_eq!(run(text("v").add(float(1.5))), text("v1.5"));
    assert_eq!(run(float(1.5).add(DCell::Char('v'))), text("1.5v"));
    assert_eq!(run(float(1.5).add(float(2.25))), float(3.75));
    assert_eq!(run(DCell::Int(89).add(DCell::Bool(true))), DCell::Int(90));
    assert_eq!(run(DCell::Bool(true).add(DCell::Int(-1))), DCell::Int(0));
    assert_eq!(run(DCell::Bool(true).add(DCell::UInt(7))), DCell::UInt(8));
    assert_eq!(run(DCell::UInt(u64::MAX).add(DCell::Bool(true))), DCell::UInt(0));
    assert_eq!(run(float(0.5).add(DCell::Bool(true))), float(1.5));
    assert_eq!(run(DCell::Bool(false).add(float(0.5))), float(0.5));
    assert_eq!(run(DCell::Bool(true).add(text("!"))), text("true!"));
    assert_eq!(run(DCell::Int(1).add(DCell::NA)), DCell::NA);
    assert_eq!(run(DCell::NA.add(DCell::Bool(true))), DCell::NA);
    assert_eq!(run(DCell::NA.add(text("x"))), DCell::NA);
    assert_eq!(run(text("x").add(DCell::NA)), DCell::NA);
    assert_eq!(run(DCell::NA.add(DCell::NA)), DCell::NA);
    assert_eq!(run(DCell::Int(i64::MAX).add(DCell::Int(1))), DCell::Int(i64::MIN));
    assert_eq!(run(DCell::UInt(u64::MAX).add(DCell::UInt(1))), DCell::UInt(0));
}

#[test]
fn a_sum_with_the_text_of_a_float_is_left_to_the_caller() {
    assert_eq!(DCell::Int(-23).add(DCell::UInt(5)), Outcome::Done(float(-18.0)));
    assert_eq!(float(1.0).add(DCell::UInt(5)), Outcome::Done(float(6.0)));
    assert_eq!(
        text("a").add(float(1.0)),
        Outcome::Float(FloatOp::Render("a".to_owned(), 1.0f64.to_bits(), String::new()))
    );
}

#[test]
fn differences() {
    assert_eq!(DCell::Int(-34).sub(DCell::Int(12)), DCell::Int(-46));
    assert_eq!(DCell::UInt(34).sub(DCell::UInt(12)), float(22.0));
    assert_eq!(DCell::UInt(0).sub(DCell::UInt(1)), float(-1.0));
    assert_eq!(DCell::UInt(0).sub(DCell::UInt(u64::MAX)), float(-18446744073709551616.0));
    assert_eq!(DCell::UInt(5).sub(DCell::Int(3)), float(2.0));
    assert_eq!(DCell::UInt(5).sub(DCell::Bool(true)), float(4.0));
    assert_eq!(DCell::Bool(false).sub(DCell::UInt(5)), float(-5.0));
    assert_eq!(DCell::Int(5).sub(DCell::Bool(true)), DCell::Int(4));
    assert_eq!(DCell::Bool(true).sub(DCell::Int(i64::MIN)), DCell::Int(i64::MIN + 1));
    assert_eq!(float(0.5).sub(DCell::Bool(true)), float(-0.5));
    assert_eq!(float(-100_000.000_1).sub(DCell::Int(-12)), float(-99_988.000_1));
    assert_eq!(DCell::Int(-23).sub(DCell::UInt(234_567)), float(-234_590f64));
    assert_eq!(DCell::Bool(true).sub(DCell::Bool(false)), DCell::Bool(true));
    assert_eq!(DCell::Bool(false).sub(DCell::Bool(false)), DCell::Bool(false));
    assert_eq!(DCell::Char('x').sub(DCell::Bool(false)), DCell::NA);
    assert_eq!(DCell::Int(-34).sub(text("hello world")), DCell::NA);
    assert_eq!(text("a").sub(text("a")), DCell::NA);
    assert_eq!(DCell::Char('a').sub(DCell::Char('a')), DCell::NA);
    assert_eq!(DCell::Bool(true).sub(DCell::Int(1)), DCell::Int(0));
    assert_eq!(DCell::Bool(true).sub(text("a")), DCell::NA);
    assert_eq!(DCell::Int(1).sub(DCell::NA), DCell::NA);
}

#[test]
fn products() {
    assert_eq!(DCell::Int(-34).mul(DCell::Int(12)), DCell::Int(-408));
    assert_eq!(DCell::UInt(34).mul(DCell::UInt(12)), DCell::UInt(408));
    assert_eq!(float(-100_000.000_1).mul(DCell::Int(-12)), float(1_200_000.001_2));
    assert_eq!(DCell::Int(-23).mul(DCell::UInt(234_567)), float(-5_395_041f64));
    assert_eq!(DCell::Bool(true).mul(DCell::Bool(true)), DCell::Bool(false));
    assert_eq!(DCell::Bool(true).mul(DCell::Bool(false)), DCell::Bool(true));
    assert_eq!(DCell::Bool(false).mul(DCell::Bool(false)), DCell::Bool(false));
    assert_eq!(text("ab").mul(DCell::UInt(3)), text("ababab"));
    assert_eq!(text("ab").mul(DCell::Int(-1)), text(""));
    assert_eq!(text("hello!").mul(DCell::UInt(2)), text("hello!hello!"));
    assert_eq!(text("hello ").mul(DCell::Int(3)), text("hello hello hello "));
    assert_eq!(DCell::Char('a').mul(DCell::Int(5)), text("aaaaa"));
    assert_eq!(DCell::Char('a').mul(DCell::UInt(0)), text(""));
    assert_eq!(text("").mul(DCell::UInt(u64::MAX)), text(""));
    assert_eq!(text("hello").mul(DCell::Char('a')), DCell::NA);
    assert_eq!(DCell::Char('a').mul(DCell::Char('b')), DCell::NA);
    assert_eq!(text("a").mul(text("b")), DCell::NA);
    assert_eq!(text("a").mul(DCell::NA), DCell::NA);
    assert_eq!(DCell::NA.mul(text("a")), DCell::NA);
    assert_eq!(DCell::Int(i64::MAX).mul(DCell::Int(2)), DCell::Int(-2));
    assert_eq!(DCell::Int(3).mul(text("ab")), text("ababab"));
    assert_eq!(DCell::Int(-3).mul(DCell::Char('a')), text(""));
    assert_eq!(DCell::UInt(2).mul(DCell::Char('a')), text("aa"));
    assert_eq!(text("ab").mul(float(2.9)), text("abab"));
    assert_eq!(float(2.9).mul(text("ab")), text("abab"));
    assert_eq!(text("ab").mul(float(0.9)), text(""));
    assert_eq!(text("ab").mul(float(-2.0)), text(""));
    assert_eq!(text("ab").mul(float(f64::NAN)), text(""));
    assert_eq!(text("").mul(float(f64::INFINITY)), text(""));
    assert_eq!(text("ab").mul(DCell::Bool(true)), text("ab"));
    assert_eq!(DCell::Bool(false).mul(DCell::Char('a')), text(""));
    assert_eq!(DCell::Int(7).mul(DCell::Bool(true)), DCell::Int(7));
    assert_eq!(DCell::Bool(false).mul(DCell::Int(7)), DCell::Int(0));
    assert_eq!(DCell::Bool(true).mul(DCell::UInt(7)), DCell::UInt(7));
    assert_eq!(DCell::UInt(7).mul(DCell::Bool(true)), float(7.0));
    assert_eq!(float(2.5).mul(DCell::Bool(true)), float(2.5));
    assert_eq!(DCell::Bool(false).mul(float(-2.5)), float(-0.0));
}

#[test]
fn quotients() {
    assert_eq!(DCell::Int(-34).div(DCell::Int(12)), DCell::Int(-2));
    assert_eq!(DCell::Int(34).div(DCell::Int(-12)), DCell::Int(-2));
    assert_eq!(DCell::Int(-34).div(DCell::Int(-12)), DCell::Int(2));
    assert_eq!(DCell::UInt(100_000).div(DCell::UInt(12)), DCell::UInt(8_333));
    assert_eq!(DCell::Int(i64::MIN).div(DCell::Int(-1)), DCell::Int(i64::MIN));
    assert_eq!(DCell::Int(i64::MIN).div(DCell::Int(1)), DCell::Int(i64::MIN));
    assert_eq!(DCell::Int(i64::MIN).div(DCell::Int(i64::MIN)), DCell::Int(1));
    assert_eq!(float(1.0).div(float(4.0)), float(0.25));
    assert_eq!(float(1.0).div(float(0.0)), float(f64::INFINITY));
    assert_eq!(DCell::Int(1).div(DCell::UInt(0)), float(f64::INFINITY));
    let c = DCell::Int(-23).div(DCell::UInt(234_567));
    assert_eq!(c, float(-23f64 / 234_567f64));
    assert_eq!(DCell::Int(-34).div(text("hello world")), DCell::NA);
    assert_eq!(DCell::Char('x').div(DCell::Bool(false)), DCell::NA);
    assert_eq!(DCell::UInt(123_456_789).div(DCell::Bool(true)), DCell::NA);
    assert_eq!(DCell::Bool(false).div(DCell::Bool(true)), DCell::NA);
    assert_eq!(text("hello ").div(float(3.4)), DCell::NA);
    assert_eq!(DCell::Int(5).div(DCell::Char('a')), DCell::NA);
    assert_eq!(DCell::Bool(false).div(float(2.0)), DCell::NA);
}

#[test]
fn arithmetic_in_place() {
    let mut cell = DCell::Int(6);
    assert_eq!(cell.add_assign(DCell::Int(5)), None);
    assert_eq!(cell, DCell::Int(11));
    cell.sub_assign(DCell::Int(1));
    assert_eq!(cell, DCell::Int(10));
    cell.mul_assign(DCell::Int(3));
    assert_eq!(cell, DCell::Int(30));
    cell.div_assign(DCell::Int(4));
    assert_eq!(cell, DCell::Int(7));
    assert_eq!(cell.add_assign(float(0.5)), None);
    assert_eq!(cell, float(7.5));
    assert_eq!(
        cell.add_assign(text("!")),
        Some(FloatOp::Render(String::new(), 7.5f64.to_bits(), "!".to_owned()))
    );
    assert_eq!(cell, float(7.5));
    assert_eq!(cell.add_assign(DCell::Bool(true)), None);
    assert_eq!(cell, float(8.5));
    assert_eq!(cell.add_assign(DCell::NA), None);
    assert!(cell.is_nan());

    let mut cell = text("hello!");
    cell.mul_assign(DCell::UInt(2));
    assert_eq!(cell, text("hello!hello!"));
    assert_eq!(cell.add_assign(text("world!")), None);
    assert_eq!(cell, text("hello!hello!world!"));
}

#[test]
fn answers_of_the_wrong_shape_give_missing_cells() {
    assert_eq!(
        FloatOp::Render(String::new(), 0, String::new()).settle(Answer::Bits(7)),
        DCell::NA
    );
    assert_eq!(
        FloatOp::Render(String::new(), 0, String::new()).settle(Answer::Invalid),
        DCell::NA
    );
    assert_eq!(FloatOp::Parse("7".to_owned()).settle(Answer::Bits(7)), DCell::Float(7));
    assert_eq!(FloatOp::Parse("1".to_owned()).settle(Answer::Invalid), DCell::NA);
    assert_eq!(
        FloatOp::Parse("1".to_owned()).settle(Answer::Text("1".to_owned())),
        DCell::NA
    );
    assert_eq!(
        FloatOp::Render("a".to_owned(), 0, "c".to_owned()).settle(Answer::Text("b".to_owned())),
        text("abc")
    );
    assert_eq!(
        Outcome::Done(DCell::Int(1)).resolve(Answer::Bits(9)),
        DCell::Int(1)
    );
}

#[test]
fn primitives_as_cells() {
    assert_eq!(6i8.into_cell(), DCell::Int(6));
    assert_eq!((-6i16).into_cell(), DCell::Int(-6));
    assert_eq!(6i32.into_cell(), DCell::Int(6));
    assert_eq!(6i64.into_cell(), DCell::Int(6));
    assert_eq!(6u8.into_cell(), DCell::UInt(6));
    assert_eq!(6u16.into_cell(), DCell::UInt(6));
    assert_eq!(6u32.into_cell(), DCell::UInt(6));
    assert_eq!(6u64.to_cell(), DCell::UInt(6));
    assert_eq!(true.into_cell(), DCell::Bool(true));
    assert_eq!('c'.into_cell(), DCell::Char('c'));
    assert_eq!("hello".to_owned().into_cell(), text("hello"));
    assert_eq!(Typed::dtype(&6i32), DType::Int);
    assert_eq!(Typed::dtype(&6u8), DType::UInt);
    assert_eq!(Typed::dtype(&true), DType::Bool);
    assert_eq!(Typed::dtype(&'c'), DType::Char);
    assert_eq!(Typed::dtype(&"s".to_owned()), DType::Text);
    assert_eq!(Typed::dtype(&DType::Mixed), DType::Mixed);
}

#[test]
fn scalars_out_of_cells() {
    assert_eq!(<i64 as TryFrom<DCell>>::try_from(DCell::Int(4)), Ok(4));
    assert_eq!(
        <i64 as TryFrom<DCell>>::try_from(DCell::UInt(4)),
        Err(RaccoonError::ConversionError)
    );
    assert_eq!(<u64 as TryFrom<DCell>>::try_from(DCell::UInt(4)), Ok(4));
    assert_eq!(<char as TryFrom<DCell>>::try_from(DCell::Char('c')), Ok('c'));
    assert_eq!(<bool as TryFrom<DCell>>::try_from(DCell::Bool(true)), Ok(true));
    assert_eq!(
        <String as TryFrom<DCell>>::try_from(text("t")),
        Ok("t".to_owned())
    );
    assert_eq!(
        <bool as TryFrom<DCell>>::try_from(DCell::NA),
        Err(RaccoonError::ConversionError)
    );
}

#[test]
fn ordering() {
    let a = DCell::Int(-234_567);
    let b = DCell::Int(-234_567);
    let c = DCell::Int(-234_568);
    assert!(a == b);
    assert!(a != c);
    assert!(b != c);
    assert!(a > c);
    assert!(!(b <= c));

    let a = float(23.45);
    let b = float(23.45);
    let c = float(23.455);
    assert!(a == b);
    assert!(a != c);
    assert!(b != c);
    assert!(a < c);
    assert!(!(b >= c));

    let a = text("hello");
    let b = text("hello");
    let c = text("world");
    assert!(a == b);
    assert!(a != c);
    assert!(b != c);
    assert!(a < c);
    assert!(!(b >= c));

    let a = DCell::Char('a');
    let b = DCell::Char('a');
    let c = DCell::Char('c');
    assert!(a == b);
    assert!(a != c);
    assert!(b != c);
    assert!(a < c);
    assert!(!(b >= c));
}

#[test]
fn floats_compare_as_numbers() {
    let values = [
        f64::NEG_INFINITY,
        -1.0e300,
        -2.5,
        -f64::MIN_POSITIVE,
        -0.0,
        0.0,
        5e-324,
        1.0,
        1.0000000000000002,
        23.45,
        23.455,
        f64::MAX,
        f64::INFINITY,
        f64::NAN,
        -f64::NAN,
    ];
    for x in values.iter() {
        for y in values.iter() {
            assert_eq!(float(*x).partial_cmp(&float(*y)), x.partial_cmp(y), "{} {}", x, y);
            assert_eq!(float(*x) == float(*y), x == y, "{} {}", x, y);
        }
    }
}

#[test]
fn cells_of_different_kinds_are_not_ordered() {
    assert_eq!(DCell::Int(1).partial_cmp(&DCell::UInt(2)), None);
    assert_eq!(DCell::Int(1).partial_cmp(&float(2.0)), None);
    assert_eq!(text("a").partial_cmp(&DCell::Char('a')), None);
    assert_eq!(DCell::NA.partial_cmp(&DCell::Int(0)), None);
    assert_eq!(DCell::NA.partial_cmp(&DCell::NA), Some(Ordering::Equal));
    assert_eq!(DCell::Bool(false).partial_cmp(&DCell::Bool(true)), Some(Ordering::Less));
    assert_eq!(DCell::Bool(true).partial_cmp(&DCell::Bool(true)), Some(Ordering::Equal));
    assert_eq!(DCell::UInt(3).partial_cmp(&DCell::UInt(2)), Some(Ordering::Greater));
    assert!(DCell::Int(1) != DCell::UInt(1));
    assert!(DCell::Char('a') != text("a"));
}

#[test]
fn texts_are_ordered_by_their_characters() {
    for a in ["", "a", "ab", "abc", "b", "é", "z", "aé", "日本"] {
        for b in ["", "a", "ab", "abd", "b", "é", "z", "aé", "日本語"] {
            assert_eq!(text(a).partial_cmp(&text(b)), a.partial_cmp(b), "{:?} {:?}", a, b);
        }
    }
}

#[test]
fn operators() {
    assert_eq!(DCell::Int(6) - DCell::Int(5), DCell::Int(1));
    assert_eq!(DCell::Bool(true) - DCell::Bool(false), DCell::Bool(true));
    assert_eq!(DCell::Bool(true) * DCell::Bool(true), DCell::Bool(false));
    assert_eq!(text("ab") * DCell::UInt(3), text("ababab"));
    assert_eq!(text("ab") * DCell::Int(-1), text(""));
    assert_eq!(DCell::Int(-34) / DCell::Int(12), DCell::Int(-2));
    assert_eq!(float(1.0) / DCell::Int(4), float(0.25));
    assert_eq!(run(DCell::Int(-34) + text("hello")), text("-34hello"));
    assert_eq!(DCell::Bool(true) + DCell::Bool(false), Outcome::Done(DCell::Bool(false)));
    assert_eq!(float(0.1) + float(0.2), Outcome::Done(float(0.1 + 0.2)));
    assert_eq!(float(0.1) * DCell::UInt(3), float(0.1 * 3.0));
    assert_eq!(DCell::UInt(1) - DCell::Int(3), float(-2.0));
}

#[test]
fn getting_types() {
    let entry = text("Some text");
    assert_eq!("String", entry.internal_type());
    assert_eq!(DataType::Text, entry.data_type());

    // Every integer is held in 64 bits.
    let entry = DCell::Int(-353);
    assert_eq!("i64", entry.internal_type());
    assert_eq!(DataType::Long, entry.data_type());
    assert_eq!(DataType::Integer.dtype(), entry.dtype());

    let entry = DCell::UInt(454);
    assert_eq!("u64", entry.internal_type());
    assert_eq!(DataType::ULong, entry.data_type());
    assert_eq!(DataType::UInteger.dtype(), entry.dtype());

    let entry = DCell::Int(-123_456_789);
    assert_eq!("i64", entry.internal_type());
    assert_eq!(DataType::Long, entry.data_type());

    let entry = DCell::UInt(987_654_321);
    assert_eq!("u64", entry.internal_type());
    assert_eq!(DataType::ULong, entry.data_type());

    // Every floating point number is held in 64 bits.
    let entry = float(-90.345);
    assert_eq!("f64", entry.internal_type());
    assert_eq!(DataType::Double, entry.data_type());
    assert_eq!(DataType::Float.dtype(), entry.dtype());

    let entry = float(-34532.34);
    assert_eq!("f64", entry.internal_type());
    assert_eq!(DataType::Double, entry.data_type());

    let entry = DCell::Bool(true);
    assert_eq!("bool", entry.internal_type());
    assert_eq!(DataType::Boolean, entry.data_type());

    let entry = DCell::Char('a');
    assert_eq!("char", entry.internal_type());
    assert_eq!(DataType::Character, entry.data_type());

    let entry = DCell::NA;
    assert_eq!("na", entry.internal_type());
    assert_eq!(DataType::NA, entry.data_type());
}

#[test]
fn data_types_belong_to_kinds() {
    assert_eq!(DataType::Text.dtype(), DType::Text);
    assert_eq!(DataType::Integer.dtype(), DType::Int);
    assert_eq!(DataType::Long.dtype(), DType::Int);
    assert_eq!(DataType::UInteger.dtype(), DType::UInt);
    assert_eq!(DataType::ULong.dtype(), DType::UInt);
    assert_eq!(DataType::Float.dtype(), DType::Float);
    assert_eq!(DataType::Double.dtype(), DType::Float);
    assert_eq!(DataType::Boolean.dtype(), DType::Bool);
    assert_eq!(DataType::Character.dtype(), DType::Char);
    assert_eq!(DataType::NA.dtype(), DType::NA);
    assert_eq!(Typed::dtype(&DataType::Double), DType::Float);
    for cell in [DCell::Int(1), DCell::UInt(1), float(1.0), DCell::Char('c'), DCell::Bool(true),
        text("t"), DCell::NA] {
        assert_eq!(cell.data_type().dtype(), cell.dtype());
    }
}

#[test]
fn addition() {
    let a = DCell::Int(-34);
    let b = DCell::Int(12);
    assert_eq!(DCell::Int(-22), run(a + b));

    let a = DCell::Int(-34);
    let b = text("hello world");
    assert_eq!(text("-34hello world"), run(a + b));

    let a = float(-100_000.000_1);
    let b = DCell::Int(-12);
    assert_eq!(float(-100_012.000_1), run(a + b));

    let a = DCell::Char('x');
    let b = DCell::Bool(false);
    assert_eq!(text("xfalse"), run(a + b));

    let a = DCell::UInt(123_456_789);
    let b = DCell::Bool(true);
    assert_eq!(DCell::UInt(123_456_790), run(a + b));

    let a = DCell::Bool(false);
    let b = float(234_567.120_345);
    assert_eq!(float(234_567.120_345), run(a + b));

    let a = DCell::Int(-23);
    let b = DCell::UInt(234_567);
    assert_eq!(float(234_544f64), run(a + b));

    // Two booleans give their conjunction.
    let a = DCell::Bool(false);
    let b = DCell::Bool(true);
    assert_eq!(DCell::Bool(false), run(a + b));
}

#[test]
fn substraction() {
    let a = DCell::Int(-34);
    let b = DCell::Int(12);
    assert_eq!(DCell::Int(-46), a - b);

    let a = float(-100_000.000_1);
    let b = DCell::Int(-12);
    assert_eq!(float(-99_988.000_1), a - b);

    let a = DCell::UInt(123_456_789);
    let b = DCell::Bool(true);
    assert_eq!(float(123_456_788f64), a - b);

    let a = DCell::Bool(false);
    let b = float(234_567.120_345);
    assert_eq!(float(-234_567.120_345), a - b);

    let a = DCell::Int(-23);
    let b = DCell::UInt(234_567);
    assert_eq!(float(-234_590f64), a - b);

    // Two booleans give their disjunction.
    let a = DCell::Bool(false);
    let b = DCell::Bool(true);
    assert_eq!(DCell::Bool(true), a - b);

    let a = DCell::Char('x');
    let b = DCell::Bool(false);
    let c = a - b;
    assert_eq!(DCell::NA, c);

    let a = DCell::Int(-34);
    let b = text("hello world");
    let c = a - b;
    assert_eq!(DCell::NA, c);
}

#[test]
fn multiplication() {
    let a = DCell::Int(-34);
    let b = DCell::Int(12);
    assert_eq!(DCell::Int(-408), a * b);

    let a = DCell::Int(-34);
    let b = text("hello world");
    assert_eq!(text(""), a * b);

    let a = float(-100_000.000_1);
    let b = DCell::Int(-12);
    assert_eq!(float(1_200_000.001_2), a * b);

    let a = DCell::Char('x');
    let b = DCell::Bool(false);
    assert_eq!(text(""), a * b);

    let a = DCell::UInt(123_456_789);
    let b = DCell::Bool(true);
    assert_eq!(float(123_456_789f64), a * b);

    let a = DCell::Bool(false);
    let b = float(234_567.120_345);
    assert_eq!(float(0f64), a * b);

    let a = DCell::Int(-23);
    let b = DCell::UInt(234_567);
    assert_eq!(float(-5_395_041f64), a * b);

    // Two booleans give their exclusive disjunction.
    let a = DCell::Bool(false);
    let b = DCell::Bool(true);
    assert_eq!(DCell::Bool(true), a * b);

    let a = text("hello ");
    let b = float(3.4);
    assert_eq!(text("hello hello hello "), a * b);

    let a = DCell::Int(5i64);
    let b = DCell::Char('a');
    assert_eq!(text("aaaaa"), a * b);

    let a = DCell::Bool(true);
    let b = text("Please display me");
    assert_eq!(text("Please display me"), a * b);

    let a = text("hello");
    let b = DCell::Char('a');
    let c = a * b;
    assert_eq!(DCell::NA, c);

    let a = DCell::Char('a');
    let b = DCell::Char('b');
    let c = a * b;
    assert_eq!(DCell::NA, c);
}

#[test]
fn division() {
    let a = DCell::Int(-34);
    let b = DCell::Int(12);
    assert_eq!(DCell::Int(-2), a / b);

    let a = float(-100_000.000_1);
    let b = DCell::Int(-12);
    let c = a / b;
    assert!(float(8_333.33334166) < c);
    assert!(float(8_333.33334167) > c);

    // A boolean is no number under division.
    let a = DCell::Bool(false);
    let b = float(234_567.120_345);
    assert_eq!(DCell::NA, a / b);

    let a = DCell::Int(-23);
    let b = DCell::UInt(234_567);
    let c = a / b;
    assert!(float(-9.8053008e-5f64) > c);
    assert!(float(-9.8053009e-5f64) < c);

    let a = DCell::Int(-34);
    let b = text("hello world");
    let c = a / b;
    assert_eq!(DCell::NA, c);

    let a = DCell::Char('x');
    let b = DCell::Bool(false);
    let c = a / b;
    assert_eq!(DCell::NA, c);

    let a = DCell::UInt(123_456_789);
    let b = DCell::Bool(true);
    let c = a / b;
    assert_eq!(DCell::NA, c);

    let a = DCell::Bool(false);
    let b = DCell::Bool(true);
    let c = a / b;
    assert_eq!(DCell::NA, c);

    let a = text("hello ");
    let b = float(3.4);
    let c = a / b;
    assert_eq!(DCell::NA, c);

    let a = DCell::Int(5i64);
    let b = DCell::Char('a');
    let c = a / b;
    assert_eq!(DCell::NA, c);
}
