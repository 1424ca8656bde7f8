//! The data that the validation and export logic works on.

use vstd::prelude::*;
use crate::text::{float_literal, is_float_literal, trim, trimmed};

verus! {

/// The type a column is forced to.
#[derive(Debug, Clone, Copy, PartialEq, Eq, Structural)]
pub enum ColumnType {
    Text,
    Number,
    Boolean,
    Date,
}

/// What an empty cell of a column turns into on export.
#[derive(Debug, Clone, Copy, PartialEq, Eq, Structural)]
pub enum EmptyCellStrategy {
    Omit,
    Null,
    Default,
}

/// One entry of the mapping: one per column of the file.
#[derive(Debug)]
pub struct ColumnConfig {
    pub header: String,
    pub column_type: ColumnType,
    pub empty_strategy: EmptyCellStrategy,
}

/// The error policy chosen before validating.
#[derive(Debug, Clone, Copy, PartialEq, Eq, Structural)]
pub enum ErrorPolicy {
    /// Stop at the first row with an error.
    Strict,
    /// Go through every row and collect all errors.
    Tolerant,
}

} // verus!

verus! {

/// A cell as read from the file.
///
/// `serial_days` carries what reading the trimmed text as a 64-bit float gives,
/// truncated toward zero to whole days and saturated at the bounds of `i64` (a
/// NaN reads as 0); it is `None` when the trimmed text does not read as a float.
/// A date column takes such a number as a spreadsheet serial date.
pub struct RawCell {
    pub text: String,
    pub serial_days: Option<i64>,
}

impl RawCell {
    /// A cell holds a serial reading only when its trimmed text reads as a float.
    pub open spec fn wf(self) -> bool {
        self.serial_days is Some ==> is_float_literal(trimmed(self.text@))
    }

    /// A cell from its text and the whole days that the text's float reading
    /// gives; the days are kept only when the trimmed text reads as a float.
    pub fn new(text: String, float_days: Option<i64>) -> (cell: RawCell)
        ensures
            cell.text == text,
            cell.serial_days == if is_float_literal(trimmed(text@)) {
                float_days
            } else {
                None
            },
            cell.wf(),
    {
        let serial_days = if float_literal(trim(text.as_str())) {
            float_days
        } else {
            None
        };
        RawCell { text, serial_days }
    }
}

/// The outcome of reading a non-empty cell as its column's type.
pub enum ParsedValue {
    Text(String),
    /// A number, kept as the float literal it was read from (with any decimal
    /// comma already turned into a point).
    Number(String),
    Boolean(bool),
    /// A date, normalised to `AAAA-MM-DD` (years 0 to 9999 only).
    Date(String),
}

/// `ParsedValue` with its strings taken as character sequences.
pub enum ParsedView {
    Text(Seq<char>),
    Number(Seq<char>),
    Boolean(bool),
    Date(Seq<char>),
}

impl View for ParsedValue {
    type V = ParsedView;

    open spec fn view(&self) -> ParsedView {
        match self {
            ParsedValue::Text(s) => ParsedView::Text(s@),
            ParsedValue::Number(s) => ParsedView::Number(s@),
            ParsedValue::Boolean(b) => ParsedView::Boolean(*b),
            ParsedValue::Date(s) => ParsedView::Date(s@),
        }
    }
}

/// A parse outcome with its strings taken as character sequences.
pub open spec fn parse_outcome(r: Result<ParsedValue, String>) -> Result<ParsedView, Seq<char>> {
    match r {
        Ok(v) => Ok(v@),
        Err(e) => Err(e@),
    }
}

} // verus!

verus! {

/// One error found while validating, with its exact place.
pub struct ValidationError {
    /// Row number in the file, counting from 1 at the first data row (the header
    /// row is not counted).
    pub row_number: usize,
    pub column: String,
    pub raw_value: String,
    pub reason: String,
}

pub struct ValidationErrorView {
    pub row_number: nat,
    pub column: Seq<char>,
    pub raw_value: Seq<char>,
    pub reason: Seq<char>,
}

impl View for ValidationError {
    type V = ValidationErrorView;

    open spec fn view(&self) -> ValidationErrorView {
        ValidationErrorView {
            row_number: self.row_number as nat,
            column: self.column@,
            raw_value: self.raw_value@,
            reason: self.reason@,
        }
    }
}

/// The report of validating a whole file.
pub struct ValidationReport {
    pub total_rows: usize,
    pub valid_rows: usize,
    pub invalid_rows: usize,
    pub errors: Vec<ValidationError>,
    /// Strict mode stopped at the first row with an error (the report is partial).
    pub stopped_early: bool,
}

pub struct ReportView {
    pub total_rows: nat,
    pub valid_rows: nat,
    pub invalid_rows: nat,
    pub errors: Seq<ValidationErrorView>,
    pub stopped_early: bool,
}

pub open spec fn error_views(errors: Seq<ValidationError>) -> Seq<ValidationErrorView> {
    errors.map_values(|e: ValidationError| e@)
}

impl View for ValidationReport {
    type V = ReportView;

    open spec fn view(&self) -> ReportView {
        ReportView {
            total_rows: self.total_rows as nat,
            valid_rows: self.valid_rows as nat,
            invalid_rows: self.invalid_rows as nat,
            errors: error_views(self.errors@),
            stopped_early: self.stopped_early,
        }
    }
}

impl ReportView {
    /// Every row counted is either valid or invalid.
    pub open spec fn wf(self) -> bool {
        self.total_rows == self.valid_rows + self.invalid_rows
    }
}

pub open spec fn empty_report() -> ReportView {
    ReportView { total_rows: 0, valid_rows: 0, invalid_rows: 0, errors: Seq::empty(), stopped_early: false }
}

impl ValidationReport {
    /// A report of no rows.
    pub fn new() -> (r: ValidationReport)
        ensures
            r@ == empty_report(),
    {
        let r = ValidationReport {
            total_rows: 0,
            valid_rows: 0,
            invalid_rows: 0,
            errors: Vec::new(),
            stopped_early: false,
        };
        assert(r@.errors =~= Seq::<ValidationErrorView>::empty());
        r
    }
}

} // verus!

verus! {

/// What an export attempt answers: always the report, and the path the JSON
/// file was saved to, if it was saved (`None` when the save dialog was cancelled).
pub struct ExportResponse {
    pub report: ValidationReport,
    pub saved_path: Option<String>,
}

} // verus!
