use prometheus_fdw::error::Error;
use prometheus_fdw::fdw::{
    address_option, evaluation_time, prepare_scan, project, Cell, Column, Row, Sample, ScanState,
};
use prometheus_fdw::query::{Qual, Scalar, Value};
use prometheus_fdw::utils::Timestamp;

fn text(value: &str) -> Scalar {
    Scalar::Text(value.to_string())
}

fn qual(field: &str, operator: &str, value: Value) -> Qual {
    Qual { field: field.to_string(), operator: operator.to_string(), value }
}

fn at(ts: Timestamp) -> Value {
    Value::Cell(Scalar::Timestamp("'a timestamp'".to_string(), ts))
}

fn stamp(year: i32, month: u8, day: u8, hour: u8, minute: u8, second: u32) -> Timestamp {
    Timestamp { year, month, day, hour, minute, second, microseconds: 0 }
}

fn columns(names: &[&str]) -> Vec<Column> {
    names.iter().map(|name| Column { name: name.to_string() }).collect()
}

fn sample(labels: &[(&str, &str)], value: f64, seconds: f64) -> Sample {
    Sample {
        labels: labels.iter().map(|(name, value)| (name.to_string(), value.to_string())).collect(),
        value: value.to_bits(),
        timestamp: (seconds * 1000.0) as i64,
    }
}

fn string(value: &str) -> Option<Cell> {
    Some(Cell::String(value.to_string()))
}

fn float(value: f64) -> Option<Cell> {
    Some(Cell::F64(value.to_bits()))
}

fn entries(row: &Row) -> Vec<(&str, &Option<Cell>)> {
    row.cells.iter().map(|(name, cell)| (name.as_str(), cell)).collect()
}

#[test]
fn no_predicate_on_time_means_no_time() {
    assert_eq!(evaluation_time(&[]), Ok(None));
    assert_eq!(evaluation_time(&[qual("job", "=", Value::Cell(text("'a'")))]), Ok(None));
    assert_eq!(evaluation_time(&[qual("Time", "<", Value::Cell(text("'a'")))]), Ok(None));
}

#[test]
fn time_wants_the_equals_operator() {
    let ts = stamp(2024, 1, 1, 0, 0, 0);
    for operator in ["<", ">", "<=", ">=", "<>", "in", "is", "", "=="] {
        assert_eq!(evaluation_time(&[qual("time", operator, at(ts))]), Err(Error::TimeRequiresEquals));
        assert_eq!(
            evaluation_time(&[qual("time", operator, Value::Cell(text("1")))]),
            Err(Error::TimeRequiresEquals)
        );
        assert_eq!(
            evaluation_time(&[qual("time", operator, Value::Array(vec![]))]),
            Err(Error::TimeRequiresEquals)
        );
    }
}

#[test]
fn time_wants_a_timestamp() {
    assert_eq!(
        evaluation_time(&[qual("time", "=", Value::Cell(text("'2024-01-01'")))]),
        Err(Error::TimeRequiresTimestamp)
    );
    assert_eq!(
        evaluation_time(&[qual("time", "=", Value::Cell(text("1704067200")))]),
        Err(Error::TimeRequiresTimestamp)
    );
    let ts = stamp(2024, 1, 1, 0, 0, 0);
    let list = Value::Array(vec![Scalar::Timestamp("'x'".to_string(), ts)]);
    assert_eq!(evaluation_time(&[qual("time", "=", list)]), Err(Error::TimeRequiresTimestamp));
    assert_eq!(
        evaluation_time(&[qual("time", "=", Value::Array(vec![]))]),
        Err(Error::TimeRequiresTimestamp)
    );
}

#[test]
fn time_is_the_instant_of_the_timestamp() {
    let quals = [
        qual("job", "=", Value::Cell(text("'a'"))),
        qual("time", "=", at(stamp(2024, 1, 1, 0, 0, 0))),
    ];
    assert_eq!(evaluation_time(&quals), Ok(Some(1_704_067_200)));
    assert_eq!(evaluation_time(&[qual("time", "=", at(stamp(1970, 1, 1, 0, 16, 40)))]), Ok(Some(1000)));
}

#[test]
fn a_timestamp_that_names_no_instant_is_invalid() {
    assert_eq!(
        evaluation_time(&[qual("time", "=", at(stamp(2023, 2, 29, 0, 0, 0)))]),
        Err(Error::TimestampInvalid)
    );
    let late = Timestamp { year: 2024, month: 1, day: 1, hour: 0, minute: 0, second: 30, microseconds: 30_000_000 };
    assert_eq!(evaluation_time(&[qual("time", "=", at(late))]), Err(Error::TimestampInvalid));
}

#[test]
fn the_first_predicate_on_time_counts() {
    let good = stamp(2024, 1, 1, 0, 0, 0);
    assert_eq!(
        evaluation_time(&[qual("time", ">", at(good)), qual("time", "=", at(good))]),
        Err(Error::TimeRequiresEquals)
    );
    assert_eq!(
        evaluation_time(&[qual("time", "=", at(good)), qual("time", ">", at(good))]),
        Ok(Some(1_704_067_200))
    );
    assert_eq!(
        evaluation_time(&[qual("time", "=", Value::Cell(text("x"))), qual("time", "=", at(good))]),
        Err(Error::TimeRequiresTimestamp)
    );
}

#[test]
fn a_scan_needs_its_query_option() {
    assert_eq!(prepare_scan(None, &[]).unwrap_err(), Error::QueryOptionRequired);
    let bad_time = [qual("time", ">", Value::Cell(text("1")))];
    assert_eq!(prepare_scan(None, &bad_time).unwrap_err(), Error::QueryOptionRequired);
}

#[test]
fn a_scan_compiles_its_query_and_reads_its_time() {
    let quals = [
        qual("job", "in", Value::Array(vec![text("'a'"), text("'b'")])),
        qual("time", "=", at(stamp(1970, 1, 1, 0, 16, 40))),
    ];
    let compiled = prepare_scan(Some("up{job=~\"${job}\"}"), &quals).unwrap();
    assert_eq!(compiled.query, "up{job=~\"a|b\"}");
    assert_eq!(compiled.time, Some(1000));
    let compiled = prepare_scan(Some("up"), &[]).unwrap();
    assert_eq!(compiled.query, "up");
    assert_eq!(compiled.time, None);
}

#[test]
fn a_missing_variable_is_reported_before_a_fault_of_time() {
    let quals = [qual("time", ">", Value::Cell(text("1")))];
    assert_eq!(
        prepare_scan(Some("up{job=\"${job}\"}"), &quals).unwrap_err(),
        Error::VariableNotFound("job".to_string())
    );
    assert_eq!(prepare_scan(Some("up"), &quals).unwrap_err(), Error::TimeRequiresEquals);
}

#[test]
fn time_can_also_fill_a_placeholder() {
    let ts = stamp(1970, 1, 1, 0, 16, 40);
    let quals = [qual("time", "=", Value::Cell(Scalar::Timestamp("'1970-01-01 00:16:40'".to_string(), ts)))];
    let compiled = prepare_scan(Some("up @ ${time}"), &quals).unwrap();
    assert_eq!(compiled.query, "up @ 1970-01-01 00:16:40");
    assert_eq!(compiled.time, Some(1000));
}

#[test]
fn the_address_option_is_required() {
    assert_eq!(address_option(Some("http://localhost:9090")), Ok("http://localhost:9090"));
    assert_eq!(address_option(None), Err(Error::AddressOptionRequired));
}

#[test]
fn a_row_has_labels_value_time_and_nulls() {
    let mut scan = ScanState::new();
    scan.begin_scan(
        vec![sample(&[("host", "a")], 1.5, 1000.0)],
        columns(&["host", "value", "timestamp", "missing"]),
    );
    let mut row = Row::new();
    assert_eq!(scan.iter_scan(&mut row), Ok(Some(())));
    let instant = Some(Cell::Timestamp(stamp(1970, 1, 1, 0, 16, 40)));
    assert_eq!(
        entries(&row),
        vec![
            ("host", &string("a")),
            ("value", &float(1.5)),
            ("timestamp", &instant),
            ("missing", &None),
        ]
    );
    match &row.cells[1].1 {
        Some(Cell::F64(bits)) => assert_eq!(f64::from_bits(*bits), 1.5),
        other => panic!("{:?}", other),
    }
}

#[test]
fn the_time_of_a_row_loses_only_what_is_under_a_millisecond() {
    let half = Timestamp { microseconds: 500_000, ..stamp(1970, 1, 1, 0, 16, 40) };
    let mut scan = ScanState::new();
    scan.begin_scan(vec![sample(&[], 0.0, 1000.5004)], columns(&["timestamp"]));
    let mut row = Row::new();
    assert_eq!(scan.iter_scan(&mut row), Ok(Some(())));
    assert_eq!(entries(&row), vec![("timestamp", &Some(Cell::Timestamp(half)))]);
    let later = Timestamp { microseconds: 500_000, ..stamp(2024, 2, 29, 12, 30, 45) };
    scan.begin_scan(vec![sample(&[], 0.0, 1709209845.5)], columns(&["timestamp"]));
    let mut row = Row::new();
    assert_eq!(scan.iter_scan(&mut row), Ok(Some(())));
    assert_eq!(entries(&row), vec![("timestamp", &Some(Cell::Timestamp(later)))]);
}

#[test]
fn project_puts_the_stamp_it_is_given_under_timestamp() {
    let given = Timestamp { microseconds: 678_000, ..stamp(2024, 2, 29, 12, 30, 45) };
    let found = project(&sample(&[], 0.0, 0.0), &columns(&["timestamp"]), Some(given)).unwrap();
    assert_eq!(entries(&found), vec![("timestamp", &Some(Cell::Timestamp(given)))]);
}

#[test]
fn every_time_within_the_calendar_gives_a_row() {
    let first = Sample { labels: vec![], value: 0, timestamp: -8_334_601_228_800_000 };
    let last = Sample { labels: vec![], value: 0, timestamp: 8_210_266_876_799_999 };
    let before = Sample { labels: vec![], value: 0, timestamp: -8_334_601_228_800_001 };
    let mut scan = ScanState::new();
    scan.begin_scan(vec![first, last, before], columns(&["timestamp"]));
    let mut row = Row::new();
    assert_eq!(scan.iter_scan(&mut row), Ok(Some(())));
    assert_eq!(scan.iter_scan(&mut row), Ok(Some(())));
    assert_eq!(scan.iter_scan(&mut row), Err(Error::TimestampInvalid));
    let at_start = Timestamp { year: -262_143, month: 1, day: 1, hour: 0, minute: 0, second: 0, microseconds: 0 };
    let at_end = Timestamp { year: 262_142, month: 12, day: 31, hour: 23, minute: 59, second: 59, microseconds: 999_000 };
    assert_eq!(
        entries(&row),
        vec![("timestamp", &Some(Cell::Timestamp(at_start))), ("timestamp", &Some(Cell::Timestamp(at_end)))]
    );
}

#[test]
fn labels_come_before_value_and_timestamp() {
    let labelled = sample(&[("value", "v"), ("timestamp", "t"), ("x", "y")], 2.0, 5.0);
    let row = project(&labelled, &columns(&["timestamp", "value", "x"]), None).unwrap();
    assert_eq!(
        entries(&row),
        vec![("timestamp", &string("t")), ("value", &string("v")), ("x", &string("y"))]
    );
}

#[test]
fn the_first_of_two_labels_with_one_name_counts() {
    let doubled = sample(&[("a", "1"), ("a", "2")], 0.0, 0.0);
    let row = project(&doubled, &columns(&["a"]), None).unwrap();
    assert_eq!(entries(&row), vec![("a", &string("1"))]);
}

#[test]
fn columns_are_answered_in_their_order_and_as_often_as_asked() {
    let given = sample(&[("b", "2"), ("a", "1")], 3.0, 0.0);
    let row = project(&given, &columns(&["a", "value", "b", "a", "Value", ""]), None).unwrap();
    assert_eq!(
        entries(&row),
        vec![
            ("a", &string("1")),
            ("value", &float(3.0)),
            ("b", &string("2")),
            ("a", &string("1")),
            ("Value", &None),
            ("", &None),
        ]
    );
}

#[test]
fn no_columns_give_empty_rows() {
    let mut scan = ScanState::new();
    scan.begin_scan(vec![sample(&[], 0.0, 0.0), sample(&[], 1.0, 1.0)], vec![]);
    let mut row = Row::new();
    assert_eq!(scan.iter_scan(&mut row), Ok(Some(())));
    assert_eq!(scan.iter_scan(&mut row), Ok(Some(())));
    assert_eq!(scan.iter_scan(&mut row), Ok(None));
    assert!(row.cells.is_empty());
}

#[test]
fn a_time_that_is_not_needed_may_be_missing() {
    let given = sample(&[], 1.0, 0.0);
    assert!(project(&given, &columns(&["value", "x"]), None).is_some());
    assert!(project(&given, &columns(&["timestamp"]), None).is_none());
    assert!(project(&given, &columns(&["value", "timestamp"]), None).is_none());
}

#[test]
fn every_sample_gives_a_row_and_then_the_scan_is_exhausted() {
    let samples = vec![
        sample(&[("i", "0")], 0.5, 0.0),
        sample(&[("i", "1")], 1.5, 1.0),
        sample(&[("i", "2")], 2.5, 2.0),
    ];
    let mut scan = ScanState::new();
    scan.begin_scan(samples, columns(&["i", "value"]));
    for i in 0..3 {
        let mut row = Row::new();
        assert_eq!(scan.iter_scan(&mut row), Ok(Some(())));
        assert_eq!(
            entries(&row),
            vec![("i", &string(&i.to_string())), ("value", &float(i as f64 + 0.5))]
        );
    }
    for _ in 0..5 {
        let mut row = Row::new();
        assert_eq!(scan.iter_scan(&mut row), Ok(None));
        assert!(row.cells.is_empty());
    }
}

#[test]
fn a_scan_without_samples_is_exhausted_at_once() {
    let mut scan = ScanState::new();
    let mut row = Row::new();
    assert_eq!(scan.iter_scan(&mut row), Ok(None));
    scan.begin_scan(vec![], columns(&["value"]));
    assert_eq!(scan.iter_scan(&mut row), Ok(None));
    assert!(row.cells.is_empty());
}

#[test]
fn rows_are_added_behind_what_the_row_holds() {
    let mut scan = ScanState::new();
    scan.begin_scan(vec![sample(&[], 1.0, 0.0), sample(&[], 2.0, 0.0)], columns(&["value"]));
    let mut row = Row::new();
    row.push("kept", None);
    assert_eq!(scan.iter_scan(&mut row), Ok(Some(())));
    assert_eq!(scan.iter_scan(&mut row), Ok(Some(())));
    assert_eq!(entries(&row), vec![("kept", &None), ("value", &float(1.0)), ("value", &float(2.0))]);
}

#[test]
fn a_time_beyond_the_calendar_fails_and_changes_nothing() {
    let far = Sample { labels: vec![], value: 0, timestamp: i64::MAX };
    let near = Sample { labels: vec![], value: 0, timestamp: 0 };
    let mut scan = ScanState::new();
    scan.begin_scan(vec![near, far], columns(&["value", "timestamp"]));
    let mut row = Row::new();
    assert_eq!(scan.iter_scan(&mut row), Ok(Some(())));
    assert_eq!(row.cells.len(), 2);
    for _ in 0..3 {
        assert_eq!(scan.iter_scan(&mut row), Err(Error::TimestampInvalid));
        assert_eq!(row.cells.len(), 2);
    }
}

#[test]
fn a_time_beyond_the_calendar_does_no_harm_where_it_is_not_asked_for() {
    let far = Sample {
        labels: vec![("timestamp".to_string(), "never".to_string())],
        value: 7,
        timestamp: i64::MIN,
    };
    let mut scan = ScanState::new();
    scan.begin_scan(vec![far], columns(&["timestamp", "value"]));
    let mut row = Row::new();
    assert_eq!(scan.iter_scan(&mut row), Ok(Some(())));
    assert_eq!(entries(&row), vec![("timestamp", &string("never")), ("value", &Some(Cell::F64(7)))]);
    assert_eq!(scan.iter_scan(&mut row), Ok(None));
}

#[test]
fn a_scan_after_an_ended_one_goes_as_on_a_fresh_state() {
    let batch = || vec![sample(&[("a", "x")], 1.0, 1.0), sample(&[("a", "y")], 2.0, 2.0)];
    let run = |scan: &mut ScanState| {
        let mut rows = Vec::new();
        loop {
            let mut row = Row::new();
            match scan.iter_scan(&mut row) {
                Ok(Some(())) => rows.push(format!("{:?}", row)),
                Ok(None) => break,
                Err(error) => panic!("{:?}", error),
            }
        }
        rows
    };
    let mut used = ScanState::new();
    used.begin_scan(
        vec![sample(&[("old", "1")], 9.0, 9.0), sample(&[], 8.0, 8.0), sample(&[], 7.0, 7.0)],
        columns(&["old", "timestamp"]),
    );
    let mut row = Row::new();
    assert_eq!(used.iter_scan(&mut row), Ok(Some(())));
    assert_eq!(used.iter_scan(&mut row), Ok(Some(())));
    used.end_scan();
    let mut none = Row::new();
    assert_eq!(used.iter_scan(&mut none), Ok(None));
    used.begin_scan(batch(), columns(&["a", "value", "old"]));
    let mut fresh = ScanState::new();
    fresh.begin_scan(batch(), columns(&["a", "value", "old"]));
    let of_used = run(&mut used);
    assert_eq!(of_used.len(), 2);
    assert_eq!(of_used, run(&mut fresh));
}

#[test]
fn end_scan_is_safe_at_any_time() {
    let mut scan = ScanState::new();
    scan.end_scan();
    scan.end_scan();
    scan.begin_scan(vec![sample(&[], 1.0, 1.0)], columns(&["value"]));
    scan.end_scan();
    let mut row = Row::new();
    assert_eq!(scan.iter_scan(&mut row), Ok(None));
}

#[test]
fn begin_scan_starts_over() {
    let mut scan = ScanState::new();
    scan.begin_scan(vec![sample(&[], 1.0, 1.0)], columns(&["value"]));
    let mut row = Row::new();
    assert_eq!(scan.iter_scan(&mut row), Ok(Some(())));
    assert_eq!(scan.iter_scan(&mut row), Ok(None));
    scan.begin_scan(vec![sample(&[], 2.0, 1.0)], columns(&["value"]));
    let mut row = Row::new();
    assert_eq!(scan.iter_scan(&mut row), Ok(Some(())));
    assert_eq!(entries(&row), vec![("value", &float(2.0))]);
}
