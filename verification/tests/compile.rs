use prometheus_fdw::error::Error;
use prometheus_fdw::query::lexer::QueryPart;
use prometheus_fdw::query::{PromQuery, Qual, Scalar, Value};
use prometheus_fdw::utils::Timestamp;

fn text(value: &str) -> Scalar {
    Scalar::Text(value.to_string())
}

fn qual(field: &str, operator: &str, value: Value) -> Qual {
    Qual { field: field.to_string(), operator: operator.to_string(), value }
}

#[test]
fn should_compile_simple() {
    let out = PromQuery::parse("test").compile(&[]).unwrap();
    assert_eq!("test", out);
}

#[test]
fn should_compile_vars() {
    let out = PromQuery::parse("test ${a} ${b} asd")
        .compile(&[
            qual("a", "in", Value::Array(vec![text("'qwe'"), text("'asd'")])),
            qual("b", "=", Value::Cell(text("'bvb'"))),
        ])
        .unwrap();
    assert_eq!("test qwe|asd bvb asd", out);
}

#[test]
fn compile_is_the_same_each_time() {
    let query = PromQuery::parse("rate(${m}[5m]) ${x}");
    let quals = [qual("m", "=", Value::Cell(text("'up'")))];
    let first = query.compile(&quals);
    let second = query.compile(&quals);
    assert_eq!(first, second);
    assert_eq!(first, Err(Error::VariableNotFound("x".to_string())));
    let other = PromQuery::parse("rate(${m}[5m]) ${x}").compile(&[qual(
        "m",
        "=",
        Value::Cell(text("'up'")),
    )]);
    assert_eq!(first, other);
}

#[test]
fn missing_variable_fails() {
    let out = PromQuery::parse("up{job=\"${job}\"}").compile(&[]);
    assert_eq!(out, Err(Error::VariableNotFound("job".to_string())));
}

#[test]
fn missing_variable_fails_whatever_else_is_bound() {
    let out = PromQuery::parse("${a} ${x} ${b}").compile(&[
        qual("a", "=", Value::Cell(text("1"))),
        qual("b", "=", Value::Cell(text("2"))),
        qual("X", "=", Value::Cell(text("3"))),
    ]);
    assert_eq!(out, Err(Error::VariableNotFound("x".to_string())));
}

#[test]
fn first_missing_variable_is_reported() {
    let out = PromQuery::parse("${y} ${x}").compile(&[]);
    assert_eq!(out, Err(Error::VariableNotFound("y".to_string())));
}

#[test]
fn other_operators_do_not_bind() {
    let quals = [
        qual("a", ">", Value::Cell(text("1"))),
        qual("a", "<>", Value::Cell(text("2"))),
        qual("a", "is", Value::Cell(text("3"))),
    ];
    let out = PromQuery::parse("${a}").compile(&quals);
    assert_eq!(out, Err(Error::VariableNotFound("a".to_string())));
}

#[test]
fn other_operators_are_passed_over() {
    let quals = [
        qual("a", ">", Value::Cell(text("1"))),
        qual("a", "=", Value::Cell(text("2"))),
    ];
    assert_eq!(PromQuery::parse("${a}").compile(&quals), Ok("2".to_string()));
}

#[test]
fn first_matching_predicate_wins() {
    let quals = [
        qual("a", "=", Value::Cell(text("'first'"))),
        qual("a", "in", Value::Array(vec![text("'second'")])),
        qual("a", "=", Value::Cell(text("'third'"))),
    ];
    assert_eq!(PromQuery::parse("${a}-${a}").compile(&quals), Ok("first-first".to_string()));
}

#[test]
fn a_scalar_under_in_and_a_list_under_equals_both_bind() {
    let quals = [
        qual("a", "in", Value::Cell(text("'x'"))),
        qual("b", "=", Value::Array(vec![text("1"), text("2"), text("3")])),
    ];
    assert_eq!(PromQuery::parse("${a} ${b}").compile(&quals), Ok("x 1|2|3".to_string()));
}

#[test]
fn quotes_are_stripped_only_as_a_pair() {
    let cases = [
        ("'abc'", "abc"),
        ("abc", "abc"),
        ("'abc", "'abc"),
        ("abc'", "abc'"),
        ("''", ""),
        ("'", "'"),
        ("", ""),
        ("'a'b'", "a'b"),
        ("''a''", "'a'"),
        ("a'b'c", "a'b'c"),
        ("'é'", "é"),
        ("42", "42"),
    ];
    for (given, expected) in cases {
        let out = PromQuery::parse("${v}").compile(&[qual("v", "=", Value::Cell(text(given)))]);
        assert_eq!(out, Ok(expected.to_string()), "for {}", given);
    }
}

#[test]
fn lists_are_joined_with_bars() {
    let list = |items: &[&str]| Value::Array(items.iter().map(|item| text(item)).collect());
    let compile = |value: Value| PromQuery::parse("[${v}]").compile(&[qual("v", "in", value)]);
    assert_eq!(compile(list(&[])), Ok("[]".to_string()));
    assert_eq!(compile(list(&["'a'"])), Ok("[a]".to_string()));
    assert_eq!(compile(list(&["'a'", "b", "'c"])), Ok("[a|b|'c]".to_string()));
    assert_eq!(compile(list(&["", ""])), Ok("[|]".to_string()));
}

#[test]
fn a_timestamp_binds_by_its_text() {
    let ts = Timestamp { year: 2024, month: 1, day: 2, hour: 3, minute: 4, second: 5, microseconds: 0 };
    let quals = [qual(
        "t",
        "=",
        Value::Cell(Scalar::Timestamp("'2024-01-02 03:04:05'".to_string(), ts)),
    )];
    assert_eq!(PromQuery::parse("${t}").compile(&quals), Ok("2024-01-02 03:04:05".to_string()));
}

#[test]
fn constant_text_is_copied_verbatim() {
    let out = PromQuery::parse("sum by (job) (rate(x{a=\"b|c\"}[1m]))").compile(&[]);
    assert_eq!(out, Ok("sum by (job) (rate(x{a=\"b|c\"}[1m]))".to_string()));
}

#[test]
fn no_parts_compile_to_nothing() {
    assert_eq!(PromQuery::parse("").compile(&[]), Ok(String::new()));
    assert_eq!(PromQuery::parse("${}").compile(&[]), Ok(String::new()));
}

#[test]
fn parts_are_those_of_the_lexer() {
    let unterminated = PromQuery::parse("a${b").compile(&[qual("b", "=", Value::Cell(text("'c'")))]);
    assert_eq!(unterminated, Ok("ac".to_string()));
    assert_eq!(QueryPart::Var("b".to_string()), QueryPart::Var("b".to_string()));
}
