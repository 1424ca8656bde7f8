//! Validating rows against the column mapping, and the running report.

use vstd::prelude::*;
use crate::model::{
    empty_report, error_views, ColumnConfig, ErrorPolicy, RawCell, ReportView,
    ValidationError, ValidationErrorView, ValidationReport,
};
use crate::parsing::{parse_value_as_type, value_reading};
use crate::text::{trim, trimmed};

verus! {

/// Whether cell `i` of `row` is present and holds something besides white space.
pub open spec fn cell_filled(row: Seq<RawCell>, i: int) -> bool {
    0 <= i < row.len() && trimmed(row[i].text@).len() > 0
}

/// The error that cell `i` of `row` gives under `config`, if any. Missing and
/// blank cells never give one: the empty-cell strategy decides what they become.
pub open spec fn cell_error(row_number: nat, row: Seq<RawCell>, config: ColumnConfig, i: int) -> Option<ValidationErrorView> {
    if !cell_filled(row, i) {
        None
    } else {
        match value_reading(trimmed(row[i].text@), row[i].serial_days, config.column_type) {
            Ok(_) => None,
            Err(reason) => Some(
                ValidationErrorView {
                    row_number,
                    column: config.header@,
                    raw_value: row[i].text@,
                    reason,
                },
            ),
        }
    }
}

/// The errors of the first `k` columns, in column order.
pub open spec fn row_errors_upto(row_number: nat, row: Seq<RawCell>, mapping: Seq<ColumnConfig>, k: int) -> Seq<ValidationErrorView>
    decreases k,
{
    if k <= 0 {
        Seq::empty()
    } else {
        let before = row_errors_upto(row_number, row, mapping, k - 1);
        match cell_error(row_number, row, mapping[k - 1], k - 1) {
            Some(e) => before.push(e),
            None => before,
        }
    }
}

/// The errors of a row, one per failing column, in column order.
pub open spec fn row_errors(row_number: nat, row: Seq<RawCell>, mapping: Seq<ColumnConfig>) -> Seq<ValidationErrorView> {
    row_errors_upto(row_number, row, mapping, mapping.len() as int)
}

/// Validates one data row against the mapping; the result is empty when the
/// row is valid.
pub fn validate_row(row_number: usize, row_values: &[RawCell], mapping: &[ColumnConfig]) -> (errors: Vec<ValidationError>)
    ensures
        error_views(errors@) == row_errors(row_number as nat, row_values@, mapping@),
{
    let mut errors: Vec<ValidationError> = Vec::new();
    let mut column_index: usize = 0;
    while column_index < mapping.len()
        invariant
            column_index <= mapping.len(),
            error_views(errors@) == row_errors_upto(row_number as nat, row_values@, mapping@, column_index as int),
        decreases mapping.len() - column_index,
    {
        let column_config = &mapping[column_index];
        let ghost before = errors@;
        if column_index < row_values.len() {
            let cell = &row_values[column_index];
            let raw_value = cell.text.as_str();
            let trimmed_value = trim(raw_value);
            if !trimmed_value.is_empty() {
                assert(cell_filled(row_values@, column_index as int));
                if let Err(reason) = parse_value_as_type(trimmed_value, &column_config.column_type, cell.serial_days) {
                    errors.push(ValidationError {
                        row_number,
                        column: column_config.header.clone(),
                        raw_value: raw_value.to_string(),
                        reason,
                    });
                    assert(error_views(errors@) =~= error_views(before).push(errors@.last()@));
                }
            }
        }
        column_index += 1;
    }
    errors
}

/// The report after one more row, given that row's errors.
pub open spec fn after_row(report: ReportView, row_errs: Seq<ValidationErrorView>, policy: ErrorPolicy) -> ReportView {
    if row_errs.len() == 0 {
        ReportView { total_rows: report.total_rows + 1, valid_rows: report.valid_rows + 1, ..report }
    } else {
        ReportView {
            total_rows: report.total_rows + 1,
            invalid_rows: report.invalid_rows + 1,
            errors: report.errors + row_errs,
            stopped_early: report.stopped_early || policy == ErrorPolicy::Strict,
            ..report
        }
    }
}

} // verus!

verus! {

/// Counts a row whose errors are known, and says whether validation stops here
/// (strict mode, row with errors).
pub(crate) fn count_row(report: &mut ValidationReport, row_errors: Vec<ValidationError>, policy: &ErrorPolicy) -> (stop: bool)
    requires
        old(report)@.wf(),
        old(report).total_rows < usize::MAX,
    ensures
        final(report)@ == after_row(old(report)@, error_views(row_errors@), *policy),
        final(report)@.wf(),
        stop == (row_errors@.len() > 0 && *policy == ErrorPolicy::Strict),
{
    let ghost before = report@;
    report.total_rows += 1;
    if row_errors.len() == 0 {
        report.valid_rows += 1;
        assert(report@ =~= after_row(before, error_views(row_errors@), *policy));
        false
    } else {
        report.invalid_rows += 1;
        let mut row_errors = row_errors;
        let ghost added = error_views(row_errors@);
        report.errors.append(&mut row_errors);
        assert(error_views(report.errors@) =~= before.errors + added);
        let stop = matches!(policy, ErrorPolicy::Strict);
        if stop {
            report.stopped_early = true;
        }
        assert(report@ =~= after_row(before, added, *policy));
        stop
    }
}

/// Validates one more row (numbered `row_number`) into `report`, and says
/// whether validation stops at this row (strict mode, row with errors).
pub fn record_row(
    report: &mut ValidationReport,
    row_number: usize,
    row_values: &[RawCell],
    mapping: &[ColumnConfig],
    policy: &ErrorPolicy,
) -> (stop: bool)
    requires
        old(report)@.wf(),
        old(report).total_rows < usize::MAX,
    ensures
        final(report)@ == after_row(old(report)@, row_errors(row_number as nat, row_values@, mapping@), *policy),
        final(report)@.wf(),
        stop == (row_errors(row_number as nat, row_values@, mapping@).len() > 0 && *policy
            == ErrorPolicy::Strict),
{
    let row_errors = validate_row(row_number, row_values, mapping);
    count_row(report, row_errors, policy)
}

} // verus!

verus! {

/// The report after going through the first `n` rows of `rows` in order, row
/// `k` (from 0) being numbered `k + 1`; once strict mode has stopped, later
/// rows are not looked at.
pub open spec fn report_upto(rows: Seq<Vec<RawCell>>, mapping: Seq<ColumnConfig>, policy: ErrorPolicy, n: int) -> ReportView
    decreases n,
{
    if n <= 0 {
        empty_report()
    } else {
        let before = report_upto(rows, mapping, policy, n - 1);
        if before.stopped_early {
            before
        } else {
            after_row(before, row_errors(n as nat, rows[n - 1]@, mapping), policy)
        }
    }
}

/// The report of validating all of `rows`.
pub open spec fn report_of(rows: Seq<Vec<RawCell>>, mapping: Seq<ColumnConfig>, policy: ErrorPolicy) -> ReportView {
    report_upto(rows, mapping, policy, rows.len() as int)
}

/// Once strict mode has stopped, the report no longer changes.
pub proof fn lemma_stop_persists(rows: Seq<Vec<RawCell>>, mapping: Seq<ColumnConfig>, policy: ErrorPolicy, k: int, m: int)
    requires
        0 <= k <= m,
        report_upto(rows, mapping, policy, k).stopped_early,
    ensures
        report_upto(rows, mapping, policy, m) == report_upto(rows, mapping, policy, k),
    decreases m - k,
{
    if m > k {
        lemma_stop_persists(rows, mapping, policy, k, m - 1);
    }
}

/// Validates every row of a table (row `k`, from 0, numbered `k + 1`).
pub fn validate_rows(rows: &Vec<Vec<RawCell>>, mapping: &[ColumnConfig], policy: &ErrorPolicy) -> (report: ValidationReport)
    requires
        rows@.len() < usize::MAX,
    ensures
        report@ == report_of(rows@, mapping@, *policy),
        report@.wf(),
{
    let mut report = ValidationReport::new();
    let mut index: usize = 0;
    while index < rows.len()
        invariant
            index <= rows@.len() < usize::MAX,
            report@ == report_upto(rows@, mapping@, *policy, index as int),
            report@.wf(),
            report.total_rows == index,
            !report@.stopped_early,
        decreases rows@.len() - index,
    {
        let stop = record_row(&mut report, index + 1, rows[index].as_slice(), mapping, policy);
        index += 1;
        if stop {
            proof {
                lemma_stop_persists(rows@, mapping@, *policy, index as int, rows@.len() as int);
            }
            return report;
        }
    }
    report
}

} // verus!
