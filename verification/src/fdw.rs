//! One scan of the foreign table: what is asked of the backend, and the
//! cursor that turns the backend's samples into rows.

use crate::error::{Error, ErrorView};
use crate::query::lexer::tokenize;
use crate::query::{compile_spec, quals_view, PromQuery, Qual, QualView, Scalar, Value, ValueView};
use crate::utils::{
    from_chrono, in_calendar, instant_of, instant_of_millis, timestamp_of, to_chrono, Timestamp,
    UtcDateTime,
};
use vstd::prelude::*;

verus! {

/// The first predicate on the field `time`, whatever its operator.
pub open spec fn time_qual(quals: Seq<QualView>) -> Option<QualView>
    decreases quals.len(),
{
    if quals.len() == 0 {
        None
    } else if quals[0].field == "time"@ {
        Some(quals[0])
    } else {
        time_qual(quals.skip(1))
    }
}

/// The time at which the backend is to evaluate the query, in seconds since
/// the epoch: that of the first predicate on `time`, which must compare with
/// `=` and with a single timestamp that names an instant. Without such a
/// predicate there is none, and the backend takes its own.
pub open spec fn evaluation_time_spec(quals: Seq<QualView>) -> Result<Option<i64>, ErrorView> {
    match time_qual(quals) {
        None => Ok(None),
        Some(qual) => if qual.operator != "="@ {
            Err(ErrorView::TimeRequiresEquals)
        } else {
            match qual.value {
                ValueView::Cell(cell) => match cell.timestamp {
                    Some(ts) => if ts.valid() {
                        Ok(Some(instant_of(ts).timestamp))
                    } else {
                        Err(ErrorView::TimestampInvalid)
                    },
                    None => Err(ErrorView::TimeRequiresTimestamp),
                },
                ValueView::Array(_) => Err(ErrorView::TimeRequiresTimestamp),
            }
        },
    }
}

/// A result of `evaluation_time`, with its error by its view.
pub open spec fn time_view(result: Result<Option<i64>, Error>) -> Result<Option<i64>, ErrorView> {
    match result {
        Ok(time) => Ok(time),
        Err(error) => Err(error@),
    }
}

/// The predicate at `k` is on `time`, and none before it is.
pub open spec fn first_on_time(quals: Seq<QualView>, k: int) -> bool {
    &&& 0 <= k < quals.len()
    &&& quals[k].field == "time"@
    &&& forall|j: int| 0 <= j < k ==> (#[trigger] quals[j]).field != "time"@
}

/// Of several predicates on `time` the first one counts, and there is none
/// exactly when no predicate is on `time`.
pub proof fn lemma_time_qual_is_first(quals: Seq<QualView>, k: int)
    ensures
        first_on_time(quals, k) ==> time_qual(quals) == Some(quals[k]),
        time_qual(quals) is None <==> forall|i: int|
            0 <= i < quals.len() ==> (#[trigger] quals[i]).field != "time"@,
    decreases quals.len(),
{
    if quals.len() > 0 {
        let rest = quals.skip(1);
        lemma_time_qual_is_first(rest, k - 1);
        if quals[0].field != "time"@ {
            if time_qual(quals) is None {
                assert forall|i: int| 0 <= i < quals.len() implies (#[trigger] quals[i]).field
                    != "time"@ by {
                    if i > 0 {
                        assert(rest[i - 1] == quals[i]);
                    }
                }
            }
        }
    }
}

/// A predicate on `time` with an operator other than `=` fails with
/// `TimeRequiresEquals`, whatever its value.
pub proof fn lemma_time_requires_equals(quals: Seq<QualView>, k: int)
    requires
        first_on_time(quals, k),
        quals[k].operator != "="@,
    ensures
        evaluation_time_spec(quals) == Err::<Option<i64>, ErrorView>(
            ErrorView::TimeRequiresEquals,
        ),
{
    lemma_time_qual_is_first(quals, k);
}

/// A predicate that compares `time` with `=` and with anything but a single
/// timestamp fails with `TimeRequiresTimestamp`.
pub proof fn lemma_time_requires_timestamp(quals: Seq<QualView>, k: int)
    requires
        first_on_time(quals, k),
        quals[k].operator == "="@,
        !(quals[k].value matches ValueView::Cell(cell) && cell.timestamp is Some),
    ensures
        evaluation_time_spec(quals) == Err::<Option<i64>, ErrorView>(
            ErrorView::TimeRequiresTimestamp,
        ),
{
    lemma_time_qual_is_first(quals, k);
}

/// A predicate that compares `time` with `=` and with a timestamp gives the
/// instant that the timestamp names, or `TimestampInvalid` where it names
/// none.
pub proof fn lemma_time_of_timestamp(quals: Seq<QualView>, k: int, ts: Timestamp)
    requires
        first_on_time(quals, k),
        quals[k].operator == "="@,
        quals[k].value matches ValueView::Cell(cell) && cell.timestamp == Some(ts),
    ensures
        ts.valid() ==> evaluation_time_spec(quals) == Ok::<Option<i64>, ErrorView>(
            Some(instant_of(ts).timestamp),
        ),
        !ts.valid() ==> evaluation_time_spec(quals) == Err::<Option<i64>, ErrorView>(
            ErrorView::TimestampInvalid,
        ),
{
    lemma_time_qual_is_first(quals, k);
}

/// The index of the first predicate on the field `time`.
fn find_time(quals: &[Qual]) -> (found: Option<usize>)
    ensures
        match found {
            Some(k) => k < quals@.len() && time_qual(quals_view(quals@)) == Some(quals@[k as int]@),
            None => time_qual(quals_view(quals@)) is None,
        },
{
    let ghost all = quals_view(quals@);
    let mut i: usize = 0;
    assert(all.skip(0) =~= all);
    while i < quals.len()
        invariant
            i <= quals@.len(),
            all == quals_view(quals@),
            time_qual(all.skip(i as int)) == time_qual(all),
        decreases quals@.len() - i,
    {
        if quals[i].field.as_str().eq("time") {
            return Some(i);
        }
        assert(all.skip(i as int).skip(1) =~= all.skip(i + 1));
        i += 1;
    }
    None
}

/// Reads the evaluation time off the predicates.
pub fn evaluation_time(quals: &[Qual]) -> (time: Result<Option<i64>, Error>)
    ensures
        time_view(time) == evaluation_time_spec(quals_view(quals@)),
{
    match find_time(quals) {
        None => Ok(None),
        Some(k) => {
            let qual = &quals[k];
            if !qual.operator.as_str().eq("=") {
                return Err(Error::TimeRequiresEquals);
            }
            match &qual.value {
                Value::Cell(Scalar::Timestamp(_, ts)) => {
                    match to_chrono(*ts) {
                        Ok(instant) => Ok(Some(instant.timestamp())),
                        Err(error) => Err(error),
                    }
                },
                Value::Cell(Scalar::Text(_)) => Err(Error::TimeRequiresTimestamp),
                Value::Array(_) => Err(Error::TimeRequiresTimestamp),
            }
        },
    }
}

/// What is asked of the backend: the query, and the time at which to
/// evaluate it where the host's query names one.
#[derive(Debug)]
pub struct CompiledQuery {
    pub query: String,
    /// Seconds since 1970-01-01 00:00:00 UTC.
    pub time: Option<i64>,
}

/// The mathematical value of a [`CompiledQuery`].
pub struct CompiledQueryView {
    pub query: Seq<char>,
    pub time: Option<i64>,
}

impl View for CompiledQuery {
    type V = CompiledQueryView;

    open spec fn view(&self) -> CompiledQueryView {
        CompiledQueryView { query: self.query@, time: self.time }
    }
}

/// What a scan asks of the backend, given the table's `query` option and the
/// predicates. A missing option is reported first, then a placeholder
/// without a binding, then a fault of the predicate on `time`.
pub open spec fn prepare_spec(query: Option<Seq<char>>, quals: Seq<QualView>) -> Result<
    CompiledQueryView,
    ErrorView,
> {
    match query {
        None => Err(ErrorView::QueryOptionRequired),
        Some(template) => match compile_spec(tokenize(template), quals) {
            Err(error) => Err(error),
            Ok(text) => match evaluation_time_spec(quals) {
                Err(error) => Err(error),
                Ok(time) => Ok(CompiledQueryView { query: text, time }),
            },
        },
    }
}

/// A result of `prepare_scan`, by the views of its value or its error.
pub open spec fn prepared_view(result: Result<CompiledQuery, Error>) -> Result<
    CompiledQueryView,
    ErrorView,
> {
    match result {
        Ok(compiled) => Ok(compiled@),
        Err(error) => Err(error@),
    }
}

/// The template of an option, if the option is there.
pub open spec fn template_view(query: Option<&str>) -> Option<Seq<char>> {
    match query {
        Some(template) => Some(template@),
        None => None,
    }
}

/// Compiles the table's query template against the predicates and reads the
/// evaluation time off them. Nothing is sent to the backend when this fails.
pub fn prepare_scan(query: Option<&str>, quals: &[Qual]) -> (result: Result<CompiledQuery, Error>)
    ensures
        prepared_view(result) == prepare_spec(template_view(query), quals_view(quals@)),
{
    let template = match query {
        Some(template) => template,
        None => {
            return Err(Error::QueryOptionRequired);
        },
    };
    let text = match PromQuery::parse(template).compile(quals) {
        Ok(text) => text,
        Err(error) => {
            return Err(error);
        },
    };
    match evaluation_time(quals) {
        Ok(time) => Ok(CompiledQuery { query: text, time }),
        Err(error) => Err(error),
    }
}

/// The backend's address, which the server's options must name.
pub fn address_option<'a>(address: Option<&'a str>) -> (result: Result<&'a str, Error>)
    ensures
        match address {
            Some(text) => result == Ok::<&str, Error>(text),
            None => result matches Err(error) && error@ == ErrorView::AddressOptionRequired,
        },
{
    match address {
        Some(text) => Ok(text),
        None => Err(Error::AddressOptionRequired),
    }
}

/// A column that the host wants filled.
#[derive(Debug)]
pub struct Column {
    pub name: String,
}

/// The names of a list of columns.
pub open spec fn columns_view(columns: Seq<Column>) -> Seq<Seq<char>> {
    columns.map_values(|column: Column| column.name@)
}

/// One time series of an instant vector: its labels and its single sample.
#[derive(Debug)]
pub struct Sample {
    /// Label names with their values. Where a name stands twice, the first
    /// counts.
    pub labels: Vec<(String, String)>,
    /// The sample's value, a double, by its bits.
    pub value: u64,
    /// The sample's time, in milliseconds since 1970-01-01 00:00:00 UTC.
    pub timestamp: i64,
}

/// The value of the first label called `name`.
pub open spec fn label_of(labels: Seq<(String, String)>, name: Seq<char>) -> Option<Seq<char>>
    decreases labels.len(),
{
    if labels.len() == 0 {
        None
    } else if labels[0].0@ == name {
        Some(labels[0].1@)
    } else {
        label_of(labels.skip(1), name)
    }
}

/// The mathematical value of a [`Sample`].
pub struct SampleView {
    pub labels: Map<Seq<char>, Seq<char>>,
    pub value: u64,
    pub timestamp: i64,
}

impl View for Sample {
    type V = SampleView;

    open spec fn view(&self) -> SampleView {
        SampleView {
            labels: Map::new(
                |name: Seq<char>| label_of(self.labels@, name) is Some,
                |name: Seq<char>| label_of(self.labels@, name)->0,
            ),
            value: self.value,
            timestamp: self.timestamp,
        }
    }
}

/// The samples of a list, each by its view.
pub open spec fn samples_view(samples: Seq<Sample>) -> Seq<SampleView> {
    samples.map_values(|sample: Sample| sample@)
}

/// A cell of a row that is not null.
#[derive(Debug, PartialEq, Eq)]
pub enum Cell {
    String(String),
    /// A double, by its bits.
    F64(u64),
    Timestamp(Timestamp),
}

/// The mathematical value of a [`Cell`].
pub enum CellView {
    String(Seq<char>),
    F64(u64),
    Timestamp(Timestamp),
}

impl View for Cell {
    type V = CellView;

    open spec fn view(&self) -> CellView {
        match self {
            Cell::String(text) => CellView::String(text@),
            Cell::F64(bits) => CellView::F64(*bits),
            Cell::Timestamp(ts) => CellView::Timestamp(*ts),
        }
    }
}

/// A row: column names with their cells, `None` for null.
#[derive(Debug)]
pub struct Row {
    pub cells: Vec<(String, Option<Cell>)>,
}

/// The mathematical value of one entry of a [`Row`].
pub open spec fn entry_view(entry: (String, Option<Cell>)) -> (Seq<char>, Option<CellView>) {
    (
        entry.0@,
        match entry.1 {
            Some(cell) => Some(cell@),
            None => None,
        },
    )
}

impl View for Row {
    type V = Seq<(Seq<char>, Option<CellView>)>;

    open spec fn view(&self) -> Seq<(Seq<char>, Option<CellView>)> {
        self.cells@.map_values(|entry: (String, Option<Cell>)| entry_view(entry))
    }
}

impl Row {
    pub fn new() -> (row: Row)
        ensures
            row@ == Seq::<(Seq<char>, Option<CellView>)>::empty(),
    {
        let row = Row { cells: Vec::new() };
        row
    }

    /// Adds a cell under the name of its column.
    pub fn push(&mut self, col: &str, cell: Option<Cell>)
        ensures
            final(self)@ == old(self)@.push(
                (
                    col@,
                    match cell {
                        Some(cell) => Some(cell@),
                        None => None,
                    },
                ),
            ),
    {
        let entry = (col.to_owned(), cell);
        self.cells.push(entry);
    }
}

/// The cell of `sample` under `column`: a label of that name as a string;
/// else the value, under `value`; else the time, under `timestamp`; else
/// null. The outer `None` stands for a time that is asked for and that
/// `stamp` does not give.
pub open spec fn cell_of(sample: SampleView, column: Seq<char>, stamp: Option<Timestamp>) -> Option<
    Option<CellView>,
> {
    if sample.labels.contains_key(column) {
        Some(Some(CellView::String(sample.labels[column])))
    } else if column == "value"@ {
        Some(Some(CellView::F64(sample.value)))
    } else if column == "timestamp"@ {
        match stamp {
            Some(ts) => Some(Some(CellView::Timestamp(ts))),
            None => None,
        }
    } else {
        Some(None)
    }
}

/// The row of `sample`: one cell for each column, in the columns' order.
/// `None` where one of the cells cannot be given.
pub open spec fn row_of(sample: SampleView, columns: Seq<Seq<char>>, stamp: Option<Timestamp>)
    -> Option<Seq<(Seq<char>, Option<CellView>)>> {
    if forall|i: int| 0 <= i < columns.len() ==> (#[trigger] cell_of(sample, columns[i], stamp))
        is Some {
        Some(Seq::new(columns.len(), |i: int| (columns[i], cell_of(sample, columns[i], stamp)->0)))
    } else {
        None
    }
}

/// The value of the first label called `name`.
fn find_label<'a>(labels: &'a Vec<(String, String)>, name: &str) -> (found: Option<&'a String>)
    ensures
        match found {
            Some(value) => label_of(labels@, name@) == Some(value@),
            None => label_of(labels@, name@) is None,
        },
{
    let mut i: usize = 0;
    assert(labels@.skip(0) =~= labels@);
    while i < labels.len()
        invariant
            i <= labels@.len(),
            label_of(labels@.skip(i as int), name@) == label_of(labels@, name@),
        decreases labels@.len() - i,
    {
        if labels[i].0.as_str().eq(name) {
            return Some(&labels[i].1);
        }
        assert(labels@.skip(i as int).skip(1) =~= labels@.skip(i + 1));
        i += 1;
    }
    None
}

/// Builds the row of `sample` for `columns`. `stamp` is the sample's time as
/// a host timestamp, where it has one.
///
/// Gives `None` exactly when a column is called `timestamp`, the sample has
/// no label of that name, and `stamp` is `None`.
pub fn project(sample: &Sample, columns: &Vec<Column>, stamp: Option<Timestamp>) -> (row: Option<
    Row,
>)
    ensures
        match row_of(sample@, columns_view(columns@), stamp) {
            Some(cells) => row is Some && row->0@ == cells,
            None => row is None,
        },
{
    let ghost names = columns_view(columns@);
    let mut row = Row::new();
    let mut i: usize = 0;
    while i < columns.len()
        invariant
            i <= columns@.len(),
            names == columns_view(columns@),
            forall|j: int| 0 <= j < i ==> (#[trigger] cell_of(sample@, names[j], stamp)) is Some,
            row@ == Seq::new(i as nat, |j: int| (names[j], cell_of(sample@, names[j], stamp)->0)),
        decreases columns@.len() - i,
    {
        let name = columns[i].name.as_str();
        match find_label(&sample.labels, name) {
            Some(value) => {
                row.push(name, Some(Cell::String(value.clone())));
            },
            None => {
                if name.eq("value") {
                    row.push(name, Some(Cell::F64(sample.value)));
                } else if name.eq("timestamp") {
                    match stamp {
                        Some(ts) => {
                            row.push(name, Some(Cell::Timestamp(ts)));
                        },
                        None => {
                            assert(cell_of(sample@, names[i as int], stamp) is None);
                            return None;
                        },
                    }
                } else {
                    row.push(name, None);
                }
            },
        }
        i += 1;
    }
    Some(row)
}

/// The sample's time as the host writes it, where chrono's calendar reaches.
/// What the time has under a millisecond is lost before it comes here; the
/// milliseconds are kept.
pub open spec fn stamp_of(millis: i64) -> Option<Timestamp> {
    match instant_of_millis(millis) {
        Some(instant) => Some(timestamp_of(instant)),
        None => None,
    }
}

/// The mathematical value of a [`ScanState`].
pub struct ScanView {
    pub samples: Seq<SampleView>,
    pub columns: Seq<Seq<char>>,
    /// How many samples have been turned into rows.
    pub cursor: int,
}

/// What one call for the next row comes to.
pub enum Step {
    /// No sample is left.
    Exhausted,
    /// The row of the sample at the cursor.
    Row(Seq<(Seq<char>, Option<CellView>)>),
    /// The sample at the cursor has no row: its time is asked for and chrono's
    /// calendar does not reach it.
    Failed,
}

impl ScanView {
    /// The cursor lies within the samples, or just behind them.
    pub open spec fn wf(self) -> bool {
        0 <= self.cursor <= self.samples.len()
    }

    /// The row of the sample at `i`.
    pub open spec fn row_at(self, i: int) -> Option<Seq<(Seq<char>, Option<CellView>)>>
        recommends
            0 <= i < self.samples.len(),
    {
        row_of(self.samples[i], self.columns, stamp_of(self.samples[i].timestamp))
    }

    /// The state after one call for the next row, and what the call comes to.
    /// Only a row moves the cursor.
    pub open spec fn step(self) -> (ScanView, Step) {
        if self.cursor >= self.samples.len() {
            (self, Step::Exhausted)
        } else {
            match self.row_at(self.cursor) {
                Some(cells) => (ScanView { cursor: self.cursor + 1, ..self }, Step::Row(cells)),
                None => (self, Step::Failed),
            }
        }
    }

    /// The state after `n` calls for the next row.
    pub open spec fn after(self, n: nat) -> ScanView
        decreases n,
    {
        if n == 0 {
            self
        } else {
            self.after((n - 1) as nat).step().0
        }
    }

    /// The state in which a scan over `samples` for `columns` starts, whatever
    /// the state was before.
    pub open spec fn begun(self, samples: Seq<SampleView>, columns: Seq<Seq<char>>) -> ScanView {
        ScanView { samples, columns, cursor: 0 }
    }

    /// The state in which a scan ends.
    pub open spec fn ended(self) -> ScanView {
        ScanView { samples: Seq::empty(), columns: self.columns, cursor: 0 }
    }
}

/// The state of a scan that has not begun.
pub open spec fn fresh_scan() -> ScanView {
    ScanView { samples: Seq::empty(), columns: Seq::empty(), cursor: 0 }
}

/// The state of a scan: the backend's samples, the columns asked for, and
/// how far the rows have come.
pub struct ScanState {
    tgt_columns: Vec<Column>,
    result: Vec<Sample>,
    idx: usize,
}

impl View for ScanState {
    type V = ScanView;

    closed spec fn view(&self) -> ScanView {
        ScanView {
            samples: samples_view(self.result@),
            columns: columns_view(self.tgt_columns@),
            cursor: self.idx as int,
        }
    }
}

impl ScanState {
    #[verifier::type_invariant]
    spec fn cursor_in_range(self) -> bool {
        self.idx <= self.result@.len()
    }

    /// A state with no samples and no columns.
    pub fn new() -> (scan: ScanState)
        ensures
            scan@ == fresh_scan(),
    {
        let scan = ScanState { tgt_columns: Vec::new(), result: Vec::new(), idx: 0 };
        assert(samples_view(scan.result@) =~= Seq::empty());
        assert(columns_view(scan.tgt_columns@) =~= Seq::empty());
        scan
    }

    /// How many samples have been turned into rows.
    pub fn position(&self) -> (cursor: usize)
        ensures
            cursor == self@.cursor,
            self@.wf(),
    {
        proof {
            use_type_invariant(self);
        }
        self.idx
    }

    /// Starts a scan over `samples`, for `columns`. Nothing of an earlier scan
    /// is kept.
    pub fn begin_scan(&mut self, samples: Vec<Sample>, columns: Vec<Column>)
        ensures
            final(self)@ == old(self)@.begun(samples_view(samples@), columns_view(columns@)),
    {
        self.idx = 0;
        self.result = samples;
        self.tgt_columns = columns;
    }

    /// Adds the row of the next sample to `row` and moves on by one.
    ///
    /// Behind the last sample it gives `None`, as often as it is called, and
    /// changes nothing. Where the row needs the sample's time and chrono's
    /// calendar does not reach it, it fails with `TimestampInvalid` and
    /// changes nothing.
    pub fn iter_scan(&mut self, row: &mut Row) -> (result: Result<Option<()>, Error>)
        ensures
            final(self)@.wf(),
            final(self)@ == old(self)@.step().0,
            match old(self)@.step().1 {
                Step::Exhausted => result matches Ok(None) && final(row)@ == old(row)@,
                Step::Row(cells) => result matches Ok(Some(_)) && final(row)@ == old(row)@ + cells,
                Step::Failed => {
                    &&& result matches Err(error) && error@ == ErrorView::TimestampInvalid
                    &&& final(row)@ == old(row)@
                },
            },
    {
        proof {
            use_type_invariant(&*self);
        }
        if self.idx >= self.result.len() {
            return Ok(None);
        }
        let sample = &self.result[self.idx];
        let stamp = match UtcDateTime::from_timestamp_millis(sample.timestamp) {
            Some(instant) => Some(from_chrono(instant)),
            None => None,
        };
        match project(sample, &self.tgt_columns, stamp) {
            Some(found) => {
                let mut found = found;
                row.cells.append(&mut found.cells);
                self.idx += 1;
                Ok(Some(()))
            },
            None => Err(Error::TimestampInvalid),
        }
    }

    /// Ends the scan: the samples are dropped and the cursor is back at the
    /// start.
    pub fn end_scan(&mut self)
        ensures
            final(self)@ == old(self)@.ended(),
    {
        self.idx = 0;
        self.result = Vec::new();
        assert(samples_view(self.result@) =~= Seq::empty());
    }
}

/// A row has one cell for each column, under the column's name and in the
/// columns' order.
pub proof fn lemma_row_follows_columns(
    sample: SampleView,
    columns: Seq<Seq<char>>,
    stamp: Option<Timestamp>,
)
    ensures
        row_of(sample, columns, stamp) matches Some(row) ==> {
            &&& row.len() == columns.len()
            &&& forall|i: int|
                0 <= i < columns.len() ==> (#[trigger] row[i]) == (
                    columns[i],
                    cell_of(sample, columns[i], stamp)->0,
                )
        },
        row_of(sample, columns, stamp) is None <==> {
            &&& stamp is None
            &&& !sample.labels.contains_key("timestamp"@)
            &&& columns.contains("timestamp"@)
        },
{
    if stamp is None && !sample.labels.contains_key("timestamp"@) && columns.contains(
        "timestamp"@,
    ) {
        let i = choose|i: int| 0 <= i < columns.len() && columns[i] == "timestamp"@;
        reveal_strlit("timestamp");
        reveal_strlit("value");
        assert("timestamp"@.len() != "value"@.len());
        assert(cell_of(sample, columns[i], stamp) is None);
    }
}

/// A call for the next row keeps the samples and the columns, and moves the
/// cursor forward by one when it gives a row and not at all otherwise.
pub proof fn lemma_step_moves_forward(scan: ScanView)
    requires
        scan.wf(),
    ensures
        scan.step().0.wf(),
        scan.step().0.samples == scan.samples,
        scan.step().0.columns == scan.columns,
        scan.step().1 is Row ==> scan.step().0.cursor == scan.cursor + 1,
        !(scan.step().1 is Row) ==> scan.step().0 == scan,
        scan.step().1 is Exhausted <==> scan.cursor == scan.samples.len(),
{
}

/// Behind the last sample every call says so and changes nothing, however
/// many calls are made.
pub proof fn lemma_exhausted_scan_stays(scan: ScanView, n: nat)
    requires
        scan.cursor >= scan.samples.len(),
    ensures
        scan.after(n) == scan,
        scan.after(n).step() == (scan, Step::Exhausted),
    decreases n,
{
    if n > 0 {
        lemma_exhausted_scan_stays(scan, (n - 1) as nat);
    }
}

impl ScanView {
    /// Every sample from the cursor on has a row.
    pub open spec fn has_all_rows(self) -> bool {
        forall|i: int|
            self.cursor <= i < self.samples.len() ==> (#[trigger] self.row_at(i)) is Some
    }

    /// The time of every sample from the cursor on lies within chrono's
    /// calendar.
    pub open spec fn within_calendar(self) -> bool {
        forall|i: int|
            self.cursor <= i < self.samples.len() ==> in_calendar(
                (#[trigger] self.samples[i]).timestamp,
            )
    }

    /// The samples that are left.
    pub open spec fn left(self) -> int {
        self.samples.len() - self.cursor
    }
}

/// A time within chrono's calendar has a host timestamp, and the timestamp
/// keeps the milliseconds over the last whole second; a time outside has
/// none.
pub proof fn lemma_stamp_keeps_milliseconds(millis: i64)
    ensures
        in_calendar(millis) ==> (stamp_of(millis) matches Some(ts) && ts.microseconds == (millis
            as int % 1000) * 1000),
        !in_calendar(millis) ==> stamp_of(millis) is None,
{
}

/// Samples whose times lie within chrono's calendar all have rows, whatever
/// the columns.
pub proof fn lemma_rows_within_calendar(scan: ScanView)
    requires
        scan.wf(),
        scan.within_calendar(),
    ensures
        scan.has_all_rows(),
{
    assert forall|i: int| scan.cursor <= i < scan.samples.len() implies (#[trigger] scan.row_at(
        i,
    )) is Some by {
        assert(in_calendar(scan.samples[i].timestamp));
        lemma_row_follows_columns(
            scan.samples[i],
            scan.columns,
            stamp_of(scan.samples[i].timestamp),
        );
    }
}

/// Where every sample that is left has a row, as many calls as samples are
/// left give one row each, the rows of the samples in their order, and
/// every call after them says that none is left and changes nothing.
pub proof fn lemma_scan_gives_every_row(scan: ScanView, n: nat)
    requires
        scan.wf(),
        scan.has_all_rows(),
    ensures
        n <= scan.left() ==> scan.after(n) == (ScanView { cursor: scan.cursor + n, ..scan }),
        n < scan.left() ==> scan.after(n).step().1 == Step::Row(
            scan.row_at(scan.cursor + n)->0,
        ),
        n >= scan.left() ==> scan.after(n) == (ScanView {
            cursor: scan.samples.len() as int,
            ..scan
        }),
        n >= scan.left() ==> scan.after(n).step() == (scan.after(n), Step::Exhausted),
    decreases n,
{
    if n > 0 {
        lemma_scan_gives_every_row(scan, (n - 1) as nat);
    }
}

/// A scan that begins on a state that was used and ended goes as one that
/// begins on a fresh state: nothing of the earlier scan is left.
pub proof fn lemma_scan_begins_afresh(
    used: ScanView,
    samples: Seq<SampleView>,
    columns: Seq<Seq<char>>,
    n: nat,
)
    ensures
        used.ended().begun(samples, columns) == fresh_scan().begun(samples, columns),
        used.ended().begun(samples, columns).after(n) == fresh_scan().begun(samples, columns).after(
            n,
        ),
        used.ended().begun(samples, columns).after(n).step() == fresh_scan().begun(
            samples,
            columns,
        ).after(n).step(),
        used.ended().begun(samples, columns).wf(),
{
}

} // verus!
