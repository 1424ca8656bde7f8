//! Building the JSON objects that valid rows export to.

use vstd::prelude::*;
use crate::model::{
    ColumnConfig, ColumnType, EmptyCellStrategy, ErrorPolicy, ParsedValue, ParsedView, RawCell,
    ReportView, ValidationReport,
};
use crate::parsing::{parse_value_as_type, value_reading};
use crate::text::{trim, trimmed};
use crate::validation::{
    after_row, cell_filled, count_row, report_upto, row_errors, validate_row,
};

verus! {

/// A JSON value that a cell exports to.
pub enum JsonField {
    Null,
    Bool(bool),
    String(String),
    /// A JSON number written from the float that this literal reads as (a float
    /// that JSON cannot hold, infinite or NaN, is written as `null`).
    Number(String),
    /// A JSON integer.
    Integer(i64),
}

pub enum JsonFieldView {
    Null,
    Bool(bool),
    String(Seq<char>),
    Number(Seq<char>),
    Integer(int),
}

impl View for JsonField {
    type V = JsonFieldView;

    open spec fn view(&self) -> JsonFieldView {
        match self {
            JsonField::Null => JsonFieldView::Null,
            JsonField::Bool(b) => JsonFieldView::Bool(*b),
            JsonField::String(s) => JsonFieldView::String(s@),
            JsonField::Number(s) => JsonFieldView::Number(s@),
            JsonField::Integer(i) => JsonFieldView::Integer(*i as int),
        }
    }
}

/// The JSON object of one row, as the sequence of key insertions that builds
/// it: a key inserted again takes its latest value (see `object_map`).
pub struct RowObject {
    pub entries: Vec<(String, JsonField)>,
}

pub open spec fn entry_views(entries: Seq<(String, JsonField)>) -> Seq<(Seq<char>, JsonFieldView)> {
    entries.map_values(|e: (String, JsonField)| (e.0@, e.1@))
}

impl View for RowObject {
    type V = Seq<(Seq<char>, JsonFieldView)>;

    open spec fn view(&self) -> Seq<(Seq<char>, JsonFieldView)> {
        entry_views(self.entries@)
    }
}

/// The object that inserting `entries` in order into an empty JSON object gives.
pub open spec fn object_map(entries: Seq<(Seq<char>, JsonFieldView)>) -> Map<Seq<char>, JsonFieldView>
    decreases entries.len(),
{
    if entries.len() == 0 {
        Map::empty()
    } else {
        object_map(entries.drop_last()).insert(entries.last().0, entries.last().1)
    }
}

/// The JSON value of a value read from a cell.
pub open spec fn parsed_json(parsed: ParsedView) -> JsonFieldView {
    match parsed {
        ParsedView::Text(s) => JsonFieldView::String(s),
        ParsedView::Number(s) => JsonFieldView::Number(s),
        ParsedView::Boolean(b) => JsonFieldView::Bool(b),
        ParsedView::Date(s) => JsonFieldView::String(s),
    }
}

/// Converts a value read from a cell into its JSON value.
pub fn parsed_value_to_json(parsed: ParsedValue) -> (r: JsonField)
    ensures
        r@ == parsed_json(parsed@),
        parsed@ matches ParsedView::Text(s) ==> r@ == JsonFieldView::String(s),
        parsed@ matches ParsedView::Number(s) ==> r@ == JsonFieldView::Number(s),
        parsed@ matches ParsedView::Boolean(b) ==> r@ == JsonFieldView::Bool(b),
        parsed@ matches ParsedView::Date(s) ==> r@ == JsonFieldView::String(s),
{
    match parsed {
        ParsedValue::Text(s) => JsonField::String(s),
        ParsedValue::Number(n) => JsonField::Number(n),
        ParsedValue::Boolean(b) => JsonField::Bool(b),
        ParsedValue::Date(s) => JsonField::String(s),
    }
}

/// What an empty cell becomes: nothing (the key is left out), `null`, or the
/// type's default (`""` for text and dates, `0` for numbers, `false` for booleans).
pub open spec fn empty_json(strategy: EmptyCellStrategy, column_type: ColumnType) -> Option<JsonFieldView> {
    match strategy {
        EmptyCellStrategy::Omit => None,
        EmptyCellStrategy::Null => Some(JsonFieldView::Null),
        EmptyCellStrategy::Default => Some(
            match column_type {
                ColumnType::Text | ColumnType::Date => JsonFieldView::String(Seq::empty()),
                ColumnType::Number => JsonFieldView::Integer(0),
                ColumnType::Boolean => JsonFieldView::Bool(false),
            },
        ),
    }
}

/// Decides the JSON value of an empty cell; `None` means the key is left out.
pub fn empty_cell_value(strategy: &EmptyCellStrategy, column_type: &ColumnType) -> (r: Option<JsonField>)
    ensures
        match r {
            Some(v) => empty_json(*strategy, *column_type) == Some(v@),
            None => empty_json(*strategy, *column_type) is None,
        },
{
    match strategy {
        EmptyCellStrategy::Omit => None,
        EmptyCellStrategy::Null => Some(JsonField::Null),
        EmptyCellStrategy::Default => Some(
            match column_type {
                ColumnType::Text | ColumnType::Date => JsonField::String(String::new()),
                ColumnType::Number => JsonField::Integer(0),
                ColumnType::Boolean => JsonField::Bool(false),
            },
        ),
    }
}

/// The value that column `i` of `row` puts into the row's object, if any.
pub open spec fn cell_json(row: Seq<RawCell>, config: ColumnConfig, i: int) -> Option<JsonFieldView> {
    if !cell_filled(row, i) {
        empty_json(config.empty_strategy, config.column_type)
    } else {
        match value_reading(trimmed(row[i].text@), row[i].serial_days, config.column_type) {
            Ok(parsed) => Some(parsed_json(parsed)),
            Err(_) => None,
        }
    }
}

/// The insertions that the first `k` columns make.
pub open spec fn row_entries_upto(row: Seq<RawCell>, mapping: Seq<ColumnConfig>, k: int) -> Seq<(Seq<char>, JsonFieldView)>
    decreases k,
{
    if k <= 0 {
        Seq::empty()
    } else {
        let before = row_entries_upto(row, mapping, k - 1);
        match cell_json(row, mapping[k - 1], k - 1) {
            Some(v) => before.push((mapping[k - 1].header@, v)),
            None => before,
        }
    }
}

/// The object of a row: one insertion per column that yields a value.
pub open spec fn row_entries(row: Seq<RawCell>, mapping: Seq<ColumnConfig>) -> Seq<(Seq<char>, JsonFieldView)> {
    row_entries_upto(row, mapping, mapping.len() as int)
}

/// Builds the JSON object of a row (meant for rows that validated without error).
pub fn build_row_object(row_values: &[RawCell], mapping: &[ColumnConfig]) -> (r: RowObject)
    ensures
        r@ == row_entries(row_values@, mapping@),
{
    let mut entries: Vec<(String, JsonField)> = Vec::new();
    let mut column_index: usize = 0;
    while column_index < mapping.len()
        invariant
            column_index <= mapping.len(),
            entry_views(entries@) == row_entries_upto(row_values@, mapping@, column_index as int),
        decreases mapping.len() - column_index,
    {
        let column_config = &mapping[column_index];
        let ghost before = entries@;
        let filled = column_index < row_values.len() && !trim(row_values[column_index].text.as_str()).is_empty();
        if !filled {
            match empty_cell_value(&column_config.empty_strategy, &column_config.column_type) {
                Some(value) => {
                    entries.push((column_config.header.clone(), value));
                    assert(entry_views(entries@) =~= entry_views(before).push((entries@.last().0@, entries@.last().1@)));
                },
                None => {},
            }
        } else {
            let cell = &row_values[column_index];
            assert(cell_filled(row_values@, column_index as int));
            let trimmed_value = trim(cell.text.as_str());
            if let Ok(parsed) = parse_value_as_type(trimmed_value, &column_config.column_type, cell.serial_days) {
                entries.push((column_config.header.clone(), parsed_value_to_json(parsed)));
                assert(entry_views(entries@) =~= entry_views(before).push((entries@.last().0@, entries@.last().1@)));
            }
        }
        column_index += 1;
    }
    RowObject { entries }
}

} // verus!

verus! {

/// The outcome of going through a file for export: the validation report and
/// the objects of the valid rows, in file order.
pub struct ExportResult {
    pub report: ValidationReport,
    pub rows: Vec<RowObject>,
}

pub struct ExportView {
    pub report: ReportView,
    pub rows: Seq<Seq<(Seq<char>, JsonFieldView)>>,
}

pub open spec fn object_views(rows: Seq<RowObject>) -> Seq<Seq<(Seq<char>, JsonFieldView)>> {
    rows.map_values(|o: RowObject| o@)
}

impl View for ExportResult {
    type V = ExportView;

    open spec fn view(&self) -> ExportView {
        ExportView { report: self.report@, rows: object_views(self.rows@) }
    }
}

pub open spec fn empty_export() -> ExportView {
    ExportView { report: crate::model::empty_report(), rows: Seq::empty() }
}

/// One more row: it is validated, and its object is added when it has no error.
pub open spec fn export_step(
    acc: ExportView,
    row_number: nat,
    row: Seq<RawCell>,
    mapping: Seq<ColumnConfig>,
    policy: ErrorPolicy,
) -> ExportView {
    let errs = row_errors(row_number, row, mapping);
    ExportView {
        report: after_row(acc.report, errs, policy),
        rows: if errs.len() == 0 {
            acc.rows.push(row_entries(row, mapping))
        } else {
            acc.rows
        },
    }
}

/// The export after going through the first `n` rows (row `k`, from 0,
/// numbered `k + 1`), stopping where strict mode stops.
pub open spec fn export_upto(rows: Seq<Vec<RawCell>>, mapping: Seq<ColumnConfig>, policy: ErrorPolicy, n: int) -> ExportView
    decreases n,
{
    if n <= 0 {
        empty_export()
    } else {
        let before = export_upto(rows, mapping, policy, n - 1);
        if before.report.stopped_early {
            before
        } else {
            export_step(before, n as nat, rows[n - 1]@, mapping, policy)
        }
    }
}

pub open spec fn export_of(rows: Seq<Vec<RawCell>>, mapping: Seq<ColumnConfig>, policy: ErrorPolicy) -> ExportView {
    export_upto(rows, mapping, policy, rows.len() as int)
}

impl ExportResult {
    pub fn new() -> (r: ExportResult)
        ensures
            r@ == empty_export(),
    {
        let r = ExportResult { report: ValidationReport::new(), rows: Vec::new() };
        assert(r@.rows =~= Seq::<Seq<(Seq<char>, JsonFieldView)>>::empty());
        r
    }
}

/// Takes one more row (numbered `row_number`) into an export: validates it,
/// adds its object when it is valid, and says whether strict mode ends the
/// export at this row.
pub fn record_export_row(
    acc: &mut ExportResult,
    row_number: usize,
    row_values: &[RawCell],
    mapping: &[ColumnConfig],
    policy: &ErrorPolicy,
) -> (stop: bool)
    requires
        old(acc).report@.wf(),
        old(acc).report.total_rows < usize::MAX,
    ensures
        final(acc)@ == export_step(old(acc)@, row_number as nat, row_values@, mapping@, *policy),
        final(acc).report@.wf(),
        stop == (row_errors(row_number as nat, row_values@, mapping@).len() > 0 && *policy
            == ErrorPolicy::Strict),
{
    let ghost before = acc@;
    let row_errors = validate_row(row_number, row_values, mapping);
    if row_errors.len() == 0 {
        let object = build_row_object(row_values, mapping);
        acc.rows.push(object);
    }
    let stop = count_row(&mut acc.report, row_errors, policy);
    assert(acc@.rows =~= export_step(before, row_number as nat, row_values@, mapping@, *policy).rows);
    stop
}

/// Export and validation go through the same rows and report the same thing.
pub proof fn lemma_export_report(rows: Seq<Vec<RawCell>>, mapping: Seq<ColumnConfig>, policy: ErrorPolicy, n: int)
    ensures
        export_upto(rows, mapping, policy, n).report == report_upto(rows, mapping, policy, n),
    decreases n,
{
    if n > 0 {
        lemma_export_report(rows, mapping, policy, n - 1);
    }
}

/// Goes through every row of a table for export (row `k`, from 0, numbered
/// `k + 1`).
pub fn export_rows(rows: &Vec<Vec<RawCell>>, mapping: &[ColumnConfig], policy: &ErrorPolicy) -> (result: ExportResult)
    requires
        rows@.len() < usize::MAX,
    ensures
        result@ == export_of(rows@, mapping@, *policy),
        result.report@.wf(),
{
    let mut acc = ExportResult::new();
    let mut index: usize = 0;
    while index < rows.len()
        invariant
            index <= rows@.len() < usize::MAX,
            acc@ == export_upto(rows@, mapping@, *policy, index as int),
            acc.report@.wf(),
            acc.report.total_rows == index,
            !acc.report@.stopped_early,
        decreases rows@.len() - index,
    {
        let stop = record_export_row(&mut acc, index + 1, rows[index].as_slice(), mapping, policy);
        index += 1;
        if stop {
            proof {
                lemma_export_stop_persists(rows@, mapping@, *policy, index as int, rows@.len() as int);
            }
            return acc;
        }
    }
    acc
}

proof fn lemma_export_stop_persists(rows: Seq<Vec<RawCell>>, mapping: Seq<ColumnConfig>, policy: ErrorPolicy, k: int, m: int)
    requires
        0 <= k <= m,
        export_upto(rows, mapping, policy, k).report.stopped_early,
    ensures
        export_upto(rows, mapping, policy, m) == export_upto(rows, mapping, policy, k),
    decreases m - k,
{
    if m > k {
        lemma_export_stop_persists(rows, mapping, policy, k, m - 1);
    }
}

} // verus!
