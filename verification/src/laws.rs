//! Properties of validation and export over whole tables.

use vstd::prelude::*;
use crate::dates::{
    chrono_parsed_date, decimal, digit_char, european_reading, iso_candidate, iso_date_text, lemma_decimal_len,
    serial_date, valid_calendar_date, writable_date, written_date, zero_padded,
};
use crate::parsing::{boolean_reading, date_reading, number_reading, value_reading};
use crate::preview::{extension_outcome, final_name, last_index_of, FileKind};
use crate::export::{
    cell_json, export_of, export_upto, lemma_export_report, object_map, row_entries,
    row_entries_upto, JsonFieldView,
};
use crate::model::{
    ColumnConfig, ColumnType, EmptyCellStrategy, ErrorPolicy, ParsedView, RawCell, ReportView,
    ValidationErrorView,
};
use crate::text::{
    all_ascii, all_digits, ascii_lower, commas_to_points, is_decimal_number, is_digit,
    is_float_literal, is_mantissa, is_white_space, lower_case, trim_end, trim_start, trimmed,
};
use crate::validation::{cell_error, cell_filled, report_of, report_upto, row_errors, row_errors_upto};

verus! {

/// All errors of the first `n` rows, row after row.
pub open spec fn errors_of_rows(rows: Seq<Vec<RawCell>>, mapping: Seq<ColumnConfig>, n: int) -> Seq<ValidationErrorView>
    decreases n,
{
    if n <= 0 {
        Seq::empty()
    } else {
        errors_of_rows(rows, mapping, n - 1) + row_errors(n as nat, rows[n - 1]@, mapping)
    }
}

/// How many of the first `n` rows have an error.
pub open spec fn invalid_count(rows: Seq<Vec<RawCell>>, mapping: Seq<ColumnConfig>, n: int) -> nat
    decreases n,
{
    if n <= 0 {
        0
    } else {
        invalid_count(rows, mapping, n - 1) + if row_errors(n as nat, rows[n - 1]@, mapping).len() > 0 {
            1nat
        } else {
            0nat
        }
    }
}

proof fn lemma_tolerant_upto(rows: Seq<Vec<RawCell>>, mapping: Seq<ColumnConfig>, n: int)
    requires
        0 <= n,
    ensures
        ({
            let r = report_upto(rows, mapping, ErrorPolicy::Tolerant, n);
            &&& r.total_rows == n
            &&& r.invalid_rows == invalid_count(rows, mapping, n)
            &&& r.valid_rows + r.invalid_rows == n
            &&& r.errors == errors_of_rows(rows, mapping, n)
            &&& !r.stopped_early
        }),
    decreases n,
{
    if n > 0 {
        lemma_tolerant_upto(rows, mapping, n - 1);
    }
}

/// In tolerant mode every row is validated: the report counts all rows, the
/// invalid ones being those with an error, and lists every error of every row
/// in file order; it never stops early.
pub proof fn law_tolerant_validates_every_row(rows: Seq<Vec<RawCell>>, mapping: Seq<ColumnConfig>)
    ensures
        ({
            let r = report_of(rows, mapping, ErrorPolicy::Tolerant);
            &&& r.total_rows == rows.len()
            &&& r.invalid_rows == invalid_count(rows, mapping, rows.len() as int)
            &&& r.valid_rows == rows.len() - r.invalid_rows
            &&& r.errors == errors_of_rows(rows, mapping, rows.len() as int)
            &&& !r.stopped_early
        }),
{
    lemma_tolerant_upto(rows, mapping, rows.len() as int);
}

proof fn lemma_strict_upto(rows: Seq<Vec<RawCell>>, mapping: Seq<ColumnConfig>, n: int)
    requires
        0 <= n <= rows.len(),
    ensures
        ({
            let r = report_upto(rows, mapping, ErrorPolicy::Strict, n);
            &&& !r.stopped_early ==> {
                &&& r.total_rows == n
                &&& r.valid_rows == n
                &&& r.invalid_rows == 0
                &&& r.errors.len() == 0
                &&& forall|j: int| 0 <= j < n ==> (#[trigger] row_errors((j + 1) as nat, rows[j]@, mapping)).len() == 0
            }
            &&& r.stopped_early ==> {
                &&& 1 <= r.total_rows <= n
                &&& r.invalid_rows == 1
                &&& r.valid_rows == r.total_rows - 1
                &&& r.errors == row_errors(r.total_rows, rows[r.total_rows - 1]@, mapping)
                &&& r.errors.len() > 0
                &&& forall|j: int| 0 <= j < r.total_rows - 1 ==> (#[trigger] row_errors((j + 1) as nat, rows[j]@, mapping)).len() == 0
            }
        }),
    decreases n,
{
    if n > 0 {
        lemma_strict_upto(rows, mapping, n - 1);
        let before = report_upto(rows, mapping, ErrorPolicy::Strict, n - 1);
        if !before.stopped_early {
            assert(before.errors =~= Seq::<ValidationErrorView>::empty());
            assert(before.errors + row_errors(n as nat, rows[n - 1]@, mapping) =~= row_errors(n as nat, rows[n - 1]@, mapping));
        }
    }
}

/// In strict mode validation stops at the first row with an error: it stops
/// early exactly when some row has an error; then it has counted the rows up to
/// and including that one, all earlier rows being valid, and lists only that
/// row's errors. Otherwise every row was valid.
pub proof fn law_strict_stops_at_first_invalid_row(rows: Seq<Vec<RawCell>>, mapping: Seq<ColumnConfig>)
    ensures
        ({
            let r = report_of(rows, mapping, ErrorPolicy::Strict);
            &&& r.invalid_rows <= 1
            &&& r.stopped_early <==> exists|j: int|
                0 <= j < rows.len() && (#[trigger] row_errors((j + 1) as nat, rows[j]@, mapping)).len() > 0
            &&& r.stopped_early ==> {
                &&& 1 <= r.total_rows <= rows.len()
                &&& r.errors == row_errors(r.total_rows, rows[r.total_rows - 1]@, mapping)
                &&& r.errors.len() > 0
                &&& forall|j: int| 0 <= j < r.total_rows - 1 ==> (#[trigger] row_errors((j + 1) as nat, rows[j]@, mapping)).len() == 0
            }
            &&& !r.stopped_early ==> r.total_rows == rows.len() && r.valid_rows == rows.len() && r.errors.len() == 0
        }),
{
    lemma_strict_upto(rows, mapping, rows.len() as int);
    let r = report_of(rows, mapping, ErrorPolicy::Strict);
    if r.stopped_early {
        let j = r.total_rows - 1;
        assert(row_errors((j + 1) as nat, rows[j]@, mapping).len() > 0);
    }
}

/// Whatever the policy, every row counted is either valid or invalid.
pub proof fn law_counts_add_up(rows: Seq<Vec<RawCell>>, mapping: Seq<ColumnConfig>, policy: ErrorPolicy)
    ensures
        report_of(rows, mapping, policy).wf(),
        report_of(rows, mapping, policy).total_rows <= rows.len(),
{
    lemma_counts_upto(rows, mapping, policy, rows.len() as int);
}

proof fn lemma_counts_upto(rows: Seq<Vec<RawCell>>, mapping: Seq<ColumnConfig>, policy: ErrorPolicy, n: int)
    requires
        0 <= n,
    ensures
        report_upto(rows, mapping, policy, n).wf(),
        report_upto(rows, mapping, policy, n).total_rows <= n,
    decreases n,
{
    if n > 0 {
        lemma_counts_upto(rows, mapping, policy, n - 1);
    }
}

} // verus!

verus! {

/// Every error of a row carries the row's number and points at a filled cell:
/// its column is that cell's header and its raw value the cell's text. Blank or
/// missing cells never give an error.
pub proof fn law_errors_point_at_filled_cells(row_number: nat, row: Seq<RawCell>, mapping: Seq<ColumnConfig>)
    ensures
        forall|k: int|
            0 <= k < row_errors(row_number, row, mapping).len() ==> {
                let e = #[trigger] row_errors(row_number, row, mapping)[k];
                &&& e.row_number == row_number
                &&& exists|i: int|
                    0 <= i < mapping.len() && #[trigger] cell_filled(row, i) && e.column == mapping[i].header@
                        && e.raw_value == row[i].text@
            },
{
    lemma_errors_point_at_filled_cells(row_number, row, mapping, mapping.len() as int);
}

proof fn lemma_errors_point_at_filled_cells(row_number: nat, row: Seq<RawCell>, mapping: Seq<ColumnConfig>, n: int)
    requires
        n <= mapping.len(),
    ensures
        forall|k: int|
            0 <= k < row_errors_upto(row_number, row, mapping, n).len() ==> {
                let e = #[trigger] row_errors_upto(row_number, row, mapping, n)[k];
                &&& e.row_number == row_number
                &&& exists|i: int|
                    0 <= i < mapping.len() && #[trigger] cell_filled(row, i) && e.column == mapping[i].header@
                        && e.raw_value == row[i].text@
            },
    decreases n,
{
    if n > 0 {
        lemma_errors_point_at_filled_cells(row_number, row, mapping, n - 1);
        let before = row_errors_upto(row_number, row, mapping, n - 1);
        let now = row_errors_upto(row_number, row, mapping, n);
        assert forall|k: int| 0 <= k < now.len() implies {
            let e = #[trigger] now[k];
            &&& e.row_number == row_number
            &&& exists|i: int|
                0 <= i < mapping.len() && #[trigger] cell_filled(row, i) && e.column == mapping[i].header@
                    && e.raw_value == row[i].text@
        } by {
            if k < before.len() {
                assert(now[k] == before[k]);
            } else {
                assert(cell_filled(row, n - 1));
            }
        }
    }
}

/// A row whose columns are all text columns never has an error.
pub proof fn law_text_columns_never_fail(row_number: nat, row: Seq<RawCell>, mapping: Seq<ColumnConfig>)
    requires
        forall|i: int| 0 <= i < mapping.len() ==> (#[trigger] mapping[i]).column_type == ColumnType::Text,
    ensures
        row_errors(row_number, row, mapping).len() == 0,
{
    lemma_text_columns_never_fail(row_number, row, mapping, mapping.len() as int);
}

proof fn lemma_text_columns_never_fail(row_number: nat, row: Seq<RawCell>, mapping: Seq<ColumnConfig>, n: int)
    requires
        n <= mapping.len(),
        forall|i: int| 0 <= i < mapping.len() ==> (#[trigger] mapping[i]).column_type == ColumnType::Text,
    ensures
        row_errors_upto(row_number, row, mapping, n).len() == 0,
    decreases n,
{
    if n > 0 {
        lemma_text_columns_never_fail(row_number, row, mapping, n - 1);
        assert(mapping[n - 1].column_type == ColumnType::Text);
    }
}

/// A row is free of errors exactly when every filled cell reads as its
/// column's type; such a row puts a value in its object for every filled cell.
pub proof fn law_valid_row_exports_every_filled_cell(row_number: nat, row: Seq<RawCell>, mapping: Seq<ColumnConfig>)
    ensures
        row_errors(row_number, row, mapping).len() == 0 <==> forall|i: int|
            0 <= i < mapping.len() ==> (#[trigger] cell_error(row_number, row, mapping[i], i)) is None,
        row_errors(row_number, row, mapping).len() == 0 ==> forall|i: int|
            0 <= i < mapping.len() && cell_filled(row, i) ==> (#[trigger] cell_json(row, mapping[i], i)) is Some,
{
    lemma_no_errors_upto(row_number, row, mapping, mapping.len() as int);
    if row_errors(row_number, row, mapping).len() == 0 {
        assert forall|i: int| 0 <= i < mapping.len() && cell_filled(row, i) implies (#[trigger] cell_json(row, mapping[i], i)) is Some by {
            assert(cell_error(row_number, row, mapping[i], i) is None);
        }
    }
}

proof fn lemma_no_errors_upto(row_number: nat, row: Seq<RawCell>, mapping: Seq<ColumnConfig>, n: int)
    requires
        0 <= n <= mapping.len(),
    ensures
        row_errors_upto(row_number, row, mapping, n).len() == 0 <==> forall|i: int|
            0 <= i < n ==> (#[trigger] cell_error(row_number, row, mapping[i], i)) is None,
    decreases n,
{
    if n > 0 {
        lemma_no_errors_upto(row_number, row, mapping, n - 1);
        if row_errors_upto(row_number, row, mapping, n).len() == 0 {
            assert forall|i: int| 0 <= i < n implies (#[trigger] cell_error(row_number, row, mapping[i], i)) is None by {
                if i < n - 1 {
                    assert(row_errors_upto(row_number, row, mapping, n - 1).len() == 0);
                }
            }
        }
    }
}

/// Export goes through the same rows as validation and answers the same report.
pub proof fn law_export_reports_like_validation(rows: Seq<Vec<RawCell>>, mapping: Seq<ColumnConfig>, policy: ErrorPolicy)
    ensures
        export_of(rows, mapping, policy).report == report_of(rows, mapping, policy),
{
    lemma_export_report(rows, mapping, policy, rows.len() as int);
}

/// The export holds one object per valid row.
pub proof fn law_one_object_per_valid_row(rows: Seq<Vec<RawCell>>, mapping: Seq<ColumnConfig>, policy: ErrorPolicy)
    ensures
        export_of(rows, mapping, policy).rows.len() == export_of(rows, mapping, policy).report.valid_rows,
{
    lemma_objects_upto(rows, mapping, policy, rows.len() as int);
}

proof fn lemma_objects_upto(rows: Seq<Vec<RawCell>>, mapping: Seq<ColumnConfig>, policy: ErrorPolicy, n: int)
    ensures
        export_upto(rows, mapping, policy, n).rows.len() == export_upto(rows, mapping, policy, n).report.valid_rows,
    decreases n,
{
    if n > 0 {
        lemma_objects_upto(rows, mapping, policy, n - 1);
    }
}

} // verus!

verus! {

/// No two columns share a header.
pub open spec fn distinct_headers(mapping: Seq<ColumnConfig>) -> bool {
    forall|i: int, j: int|
        0 <= i < mapping.len() && 0 <= j < mapping.len() && i != j ==> (#[trigger] mapping[i]).header@
            != (#[trigger] mapping[j]).header@
}

proof fn lemma_object_map_push(entries: Seq<(Seq<char>, JsonFieldView)>, e: (Seq<char>, JsonFieldView))
    ensures
        object_map(entries.push(e)) == object_map(entries).insert(e.0, e.1),
{
    assert(entries.push(e).drop_last() =~= entries);
}

proof fn lemma_object_upto(row: Seq<RawCell>, mapping: Seq<ColumnConfig>, n: int)
    requires
        0 <= n <= mapping.len(),
        distinct_headers(mapping),
    ensures
        forall|key: Seq<char>|
            #[trigger] object_map(row_entries_upto(row, mapping, n)).dom().contains(key) ==> exists|j: int|
                0 <= j < n && (#[trigger] mapping[j]).header@ == key,
        forall|j: int|
            0 <= j < n ==> (object_map(row_entries_upto(row, mapping, n)).dom().contains(
                (#[trigger] mapping[j]).header@,
            ) <==> cell_json(row, mapping[j], j) is Some),
        forall|j: int|
            0 <= j < n && cell_json(row, mapping[j], j) is Some ==> object_map(
                row_entries_upto(row, mapping, n),
            )[(#[trigger] mapping[j]).header@] == cell_json(row, mapping[j], j)->0,
    decreases n,
{
    if n > 0 {
        lemma_object_upto(row, mapping, n - 1);
        let before = row_entries_upto(row, mapping, n - 1);
        let h = mapping[n - 1].header@;
        match cell_json(row, mapping[n - 1], n - 1) {
            Some(v) => {
                lemma_object_map_push(before, (h, v));
            },
            None => {
                if object_map(before).dom().contains(h) {
                    let j = choose|j: int| 0 <= j < n - 1 && (#[trigger] mapping[j]).header@ == h;
                    assert(mapping[j].header@ != mapping[n - 1].header@);
                }
            },
        }
    }
}

/// In a row whose columns have distinct headers, a blank or missing cell of a
/// column whose strategy is to omit leaves the key out of the row's object; any
/// other strategy puts the strategy's value (`null` or the type's default) there.
pub proof fn law_empty_cell_strategy(row: Seq<RawCell>, mapping: Seq<ColumnConfig>, i: int)
    requires
        distinct_headers(mapping),
        0 <= i < mapping.len(),
        !cell_filled(row, i),
    ensures
        mapping[i].empty_strategy == EmptyCellStrategy::Omit ==> !object_map(row_entries(row, mapping)).dom().contains(
            mapping[i].header@,
        ),
        mapping[i].empty_strategy == EmptyCellStrategy::Null ==> object_map(row_entries(row, mapping))[mapping[i].header@]
            == JsonFieldView::Null,
        mapping[i].empty_strategy == EmptyCellStrategy::Default ==> object_map(row_entries(row, mapping))[mapping[i].header@]
            == match mapping[i].column_type {
            ColumnType::Text | ColumnType::Date => JsonFieldView::String(Seq::empty()),
            ColumnType::Number => JsonFieldView::Integer(0),
            ColumnType::Boolean => JsonFieldView::Bool(false),
        },
{
    lemma_object_upto(row, mapping, mapping.len() as int);
    assert(object_map(row_entries(row, mapping)).dom().contains(mapping[i].header@) <==> cell_json(row, mapping[i], i) is Some);
}

proof fn lemma_decimal_digits(n: nat)
    ensures
        forall|k: int| 0 <= k < decimal(n).len() ==> is_digit(#[trigger] decimal(n)[k]),
    decreases n,
{
    assert(is_digit(digit_char(n % 10)));
    if n >= 10 {
        lemma_decimal_digits(n / 10);
        assert(decimal(n) == decimal(n / 10).push(digit_char(n % 10)));
    } else {
        assert(digit_char(n) == digit_char(n % 10));
    }
}

proof fn lemma_zero_padded_digits(n: nat, width: nat)
    requires
        width == 2 && n < 100 || width == 4 && n < 10000,
    ensures
        zero_padded(n, width).len() == width,
        forall|k: int| 0 <= k < width ==> is_digit(#[trigger] zero_padded(n, width)[k]),
{
    lemma_decimal_len(n);
    lemma_decimal_digits(n);
    let z = zero_padded(n, width);
    assert forall|k: int| 0 <= k < width implies is_digit(#[trigger] z[k]) by {
        if decimal(n).len() < width {
            let pad = (width - decimal(n).len()) as nat;
            if k >= pad {
                assert(z[k] == decimal(n)[k - pad]);
            }
        }
    }
}

/// A date from year 0 to 9999 is written `AAAA-MM-DD`: ten characters, dashes
/// at positions 4 and 7, digits everywhere else.
pub proof fn law_iso_date_shape(year: i32, month: u32, day: u32)
    requires
        0 <= year <= 9999,
        1 <= month <= 12,
        1 <= day <= 31,
    ensures
        iso_date_text((year, month, day)).len() == 10,
        iso_date_text((year, month, day))[4] == '-',
        iso_date_text((year, month, day))[7] == '-',
        forall|k: int|
            0 <= k < 10 && k != 4 && k != 7 ==> is_digit(#[trigger] iso_date_text((year, month, day))[k]),
{
    lemma_zero_padded_digits(year as nat, 4);
    lemma_zero_padded_digits(month as nat, 2);
    lemma_zero_padded_digits(day as nat, 2);
    let t = iso_date_text((year, month, day));
    let y = zero_padded(year as nat, 4);
    let m = zero_padded(month as nat, 2);
    let d = zero_padded(day as nat, 2);
    assert(t =~= y + seq!['-'] + m + seq!['-'] + d);
    assert forall|k: int| 0 <= k < 10 && k != 4 && k != 7 implies is_digit(#[trigger] t[k]) by {
        if k < 4 {
            assert(t[k] == y[k]);
        } else if k < 7 {
            assert(t[k] == m[k - 5]);
        } else {
            assert(t[k] == d[k - 8]);
        }
    }
}

} // verus!

verus! {

proof fn lemma_errors_prefix(rows: Seq<Vec<RawCell>>, mapping: Seq<ColumnConfig>, a: int, b: int)
    requires
        0 <= a <= b,
    ensures
        errors_of_rows(rows, mapping, a).len() <= errors_of_rows(rows, mapping, b).len(),
        errors_of_rows(rows, mapping, a) == errors_of_rows(rows, mapping, b).subrange(
            0,
            errors_of_rows(rows, mapping, a).len() as int,
        ),
    decreases b - a,
{
    if a < b {
        lemma_errors_prefix(rows, mapping, a, b - 1);
        let x = errors_of_rows(rows, mapping, a);
        let y = errors_of_rows(rows, mapping, b - 1);
        let z = errors_of_rows(rows, mapping, b);
        assert(z == y + row_errors(b as nat, rows[b - 1]@, mapping));
        assert(y.subrange(0, x.len() as int) =~= z.subrange(0, x.len() as int));
    } else {
        assert(errors_of_rows(rows, mapping, a).subrange(0, errors_of_rows(rows, mapping, a).len() as int) =~= errors_of_rows(rows, mapping, a));
    }
}

proof fn lemma_no_errors_before(rows: Seq<Vec<RawCell>>, mapping: Seq<ColumnConfig>, n: int)
    requires
        0 <= n,
        forall|j: int| 0 <= j < n ==> (#[trigger] row_errors((j + 1) as nat, rows[j]@, mapping)).len() == 0,
    ensures
        errors_of_rows(rows, mapping, n).len() == 0,
    decreases n,
{
    if n > 0 {
        lemma_no_errors_before(rows, mapping, n - 1);
        let j = n - 1;
        assert(row_errors((j + 1) as nat, rows[j]@, mapping).len() == 0);
    }
}

/// Strict mode reports a beginning of what tolerant mode reports: no more rows,
/// and its errors are the first errors of the tolerant report.
pub proof fn law_strict_report_is_prefix_of_tolerant(rows: Seq<Vec<RawCell>>, mapping: Seq<ColumnConfig>)
    ensures
        ({
            let strict = report_of(rows, mapping, ErrorPolicy::Strict);
            let tolerant = report_of(rows, mapping, ErrorPolicy::Tolerant);
            &&& strict.total_rows <= tolerant.total_rows
            &&& strict.errors.len() <= tolerant.errors.len()
            &&& strict.errors == tolerant.errors.subrange(0, strict.errors.len() as int)
        }),
{
    law_strict_stops_at_first_invalid_row(rows, mapping);
    law_tolerant_validates_every_row(rows, mapping);
    let strict = report_of(rows, mapping, ErrorPolicy::Strict);
    let n = rows.len() as int;
    if strict.stopped_early {
        let t = strict.total_rows as int;
        lemma_no_errors_before(rows, mapping, t - 1);
        lemma_errors_prefix(rows, mapping, t, n);
        assert(errors_of_rows(rows, mapping, t) =~= row_errors(t as nat, rows[t - 1]@, mapping));
    } else {
        assert(strict.errors =~= Seq::<ValidationErrorView>::empty());
        assert(strict.errors =~= errors_of_rows(rows, mapping, n).subrange(0, 0));
    }
}

} // verus!

verus! {

proof fn lemma_trim_start(s: Seq<char>)
    ensures
        trim_start(s).len() > 0 ==> !is_white_space(trim_start(s)[0]),
    decreases s.len(),
{
    if s.len() > 0 && is_white_space(s[0]) {
        lemma_trim_start(s.drop_first());
    }
}

proof fn lemma_trim_end(s: Seq<char>)
    ensures
        trim_end(s).len() <= s.len(),
        trim_end(s) == s.take(trim_end(s).len() as int),
        trim_end(s).len() > 0 ==> !is_white_space(trim_end(s).last()),
    decreases s.len(),
{
    if s.len() > 0 && is_white_space(s.last()) {
        lemma_trim_end(s.drop_last());
        let k = trim_end(s).len() as int;
        assert(s.drop_last().take(k) =~= s.take(k));
    } else {
        assert(s.take(s.len() as int) =~= s);
    }
}

/// Trimming is done once and for all: trimming a trimmed text changes nothing,
/// and the empty text trims to itself.
pub proof fn law_trim_idempotent(s: Seq<char>)
    ensures
        trimmed(trimmed(s)) == trimmed(s),
        trimmed(Seq::<char>::empty()) == Seq::<char>::empty(),
{
    lemma_trim_start(s);
    let a = trim_start(s);
    lemma_trim_end(a);
    let t = trim_end(a);
    if t.len() > 0 {
        assert(t[0] == a[0]);
        assert(trim_start(t) == t);
        assert(trim_end(t) == t);
    } else {
        assert(trim_start(t) == t);
        assert(trim_end(t) == t);
    }
}

/// White space around a cell's text never changes how it reads: the text and
/// its trimmed form give the same value or the same error.
pub proof fn law_surrounding_white_space_is_ignored(raw: Seq<char>, serial_days: Option<i64>, column_type: ColumnType)
    ensures
        value_reading(raw, serial_days, column_type) == value_reading(trimmed(raw), serial_days, column_type),
{
    law_trim_idempotent(raw);
}

/// `row2` is `row` as far as the mapping goes, save that cells missing from
/// `row` may be present in `row2` but blank; cells past the mapping may differ.
pub open spec fn same_up_to_blanks(row: Seq<RawCell>, row2: Seq<RawCell>, mapping: Seq<ColumnConfig>) -> bool {
    forall|i: int|
        0 <= i < mapping.len() ==> if i < row.len() {
            i < row2.len() && #[trigger] row2[i] == row[i]
        } else {
            !cell_filled(row2, i)
        }
}

proof fn lemma_same_cells(row_number: nat, row: Seq<RawCell>, row2: Seq<RawCell>, mapping: Seq<ColumnConfig>, n: int)
    requires
        0 <= n <= mapping.len(),
        same_up_to_blanks(row, row2, mapping),
    ensures
        row_errors_upto(row_number, row, mapping, n) == row_errors_upto(row_number, row2, mapping, n),
        row_entries_upto(row, mapping, n) == row_entries_upto(row2, mapping, n),
    decreases n,
{
    if n > 0 {
        lemma_same_cells(row_number, row, row2, mapping, n - 1);
        let i = n - 1;
        if i < row.len() {
            assert(row2[i] == row[i]);
            assert(cell_filled(row, i) == cell_filled(row2, i));
        } else {
            assert(!cell_filled(row, i));
            assert(!cell_filled(row2, i));
        }
        assert(cell_error(row_number, row, mapping[i], i) == cell_error(row_number, row2, mapping[i], i));
        assert(cell_json(row, mapping[i], i) == cell_json(row2, mapping[i], i));
    }
}

/// A missing cell and a blank cell behave alike, and cells past the mapping are
/// ignored: a row padded with blank cells, or cut after the mapping's columns,
/// gives the same errors and the same object.
pub proof fn law_missing_cells_are_blank(row_number: nat, row: Seq<RawCell>, row2: Seq<RawCell>, mapping: Seq<ColumnConfig>)
    requires
        same_up_to_blanks(row, row2, mapping),
    ensures
        row_errors(row_number, row, mapping) == row_errors(row_number, row2, mapping),
        row_entries(row, mapping) == row_entries(row2, mapping),
{
    lemma_same_cells(row_number, row, row2, mapping, mapping.len() as int);
}

/// `d` is written `AAAA-MM-DD`: ten characters, dashes at positions 4 and 7,
/// digits everywhere else.
pub open spec fn aaaa_mm_dd(d: Seq<char>) -> bool {
    &&& d.len() == 10
    &&& d[4] == '-'
    &&& d[7] == '-'
    &&& forall|k: int| 0 <= k < 10 && k != 4 && k != 7 ==> is_digit(#[trigger] d[k])
}

proof fn lemma_written_date_shape(date: Option<(i32, u32, u32)>)
    ensures
        written_date(date) matches Some(d) ==> aaaa_mm_dd(d),
        written_date(date) matches Some(d) ==> exists|x: (i32, u32, u32)|
            valid_calendar_date(x) && d == #[trigger] iso_date_text(x),
{
    if let Some(x) = date {
        if writable_date(x) {
            law_iso_date_shape(x.0, x.1, x.2);
        }
    }
}

/// Every date a cell reads as is written `AAAA-MM-DD` and names a day that
/// exists in the (proleptic Gregorian) calendar.
pub proof fn law_dates_read_as_aaaa_mm_dd(value: Seq<char>, serial_days: Option<i64>)
    ensures
        date_reading(value, serial_days) matches Ok(ParsedView::Date(d)) ==> aaaa_mm_dd(d),
        date_reading(value, serial_days) matches Ok(ParsedView::Date(d)) ==> exists|x: (i32, u32, u32)|
            valid_calendar_date(x) && d == #[trigger] iso_date_text(x),
{
    if let Some(days) = serial_days {
        lemma_written_date_shape(serial_date(days));
    }
    lemma_written_date_shape(chrono_parsed_date(iso_candidate(value), "%Y-%m-%d"@));
    lemma_written_date_shape(chrono_parsed_date(value, "%d/%m/%Y"@));
    lemma_written_date_shape(chrono_parsed_date(value, "%d-%m-%Y"@));
}

} // verus!

verus! {

/// Every error's row number lies between 1 and the number of rows counted,
/// and the errors come in row order.
pub open spec fn errors_in_row_order(r: ReportView) -> bool {
    &&& forall|k: int| 0 <= k < r.errors.len() ==> 1 <= (#[trigger] r.errors[k]).row_number <= r.total_rows
    &&& forall|a: int, b: int|
        0 <= a <= b < r.errors.len() ==> (#[trigger] r.errors[a]).row_number <= (#[trigger] r.errors[b]).row_number
}

proof fn lemma_report_shape(rows: Seq<Vec<RawCell>>, mapping: Seq<ColumnConfig>, policy: ErrorPolicy, n: int)
    requires
        0 <= n,
    ensures
        ({
            let r = report_upto(rows, mapping, policy, n);
            &&& r.invalid_rows <= r.errors.len()
            &&& errors_in_row_order(r)
            &&& !r.stopped_early ==> r.total_rows == n
            &&& r.stopped_early ==> policy == ErrorPolicy::Strict && r.invalid_rows == 1
            &&& policy == ErrorPolicy::Strict && !r.stopped_early ==> r.invalid_rows == 0
        }),
    decreases n,
{
    if n > 0 {
        lemma_report_shape(rows, mapping, policy, n - 1);
        let before = report_upto(rows, mapping, policy, n - 1);
        if !before.stopped_early {
            let errs = row_errors(n as nat, rows[n - 1]@, mapping);
            law_errors_point_at_filled_cells(n as nat, rows[n - 1]@, mapping);
            let r = report_upto(rows, mapping, policy, n);
            if errs.len() > 0 {
                assert(r.errors == before.errors + errs);
                assert forall|k: int| 0 <= k < r.errors.len() implies 1 <= (#[trigger] r.errors[k]).row_number <= r.total_rows by {
                    if k >= before.errors.len() {
                        assert(r.errors[k] == errs[k - before.errors.len()]);
                    } else {
                        assert(r.errors[k] == before.errors[k]);
                    }
                }
                assert forall|a: int, b: int|
                    0 <= a <= b < r.errors.len() implies (#[trigger] r.errors[a]).row_number <= (#[trigger] r.errors[b]).row_number by {
                    if b >= before.errors.len() {
                        assert(r.errors[b] == errs[b - before.errors.len()]);
                        if a >= before.errors.len() {
                            assert(r.errors[a] == errs[a - before.errors.len()]);
                        } else {
                            assert(r.errors[a] == before.errors[a]);
                        }
                    } else {
                        assert(r.errors[a] == before.errors[a]);
                        assert(r.errors[b] == before.errors[b]);
                    }
                }
            }
        }
    }
}

/// Whatever the policy: invalid rows never outnumber errors (an invalid row has
/// at least one); error row numbers lie between 1 and the rows counted and never
/// decrease; and validation stops early exactly when strict mode has met its one
/// invalid row.
pub proof fn law_report_shape(rows: Seq<Vec<RawCell>>, mapping: Seq<ColumnConfig>, policy: ErrorPolicy)
    ensures
        ({
            let r = report_of(rows, mapping, policy);
            &&& r.invalid_rows <= r.errors.len()
            &&& errors_in_row_order(r)
            &&& r.stopped_early <==> policy == ErrorPolicy::Strict && r.invalid_rows == 1
            &&& policy == ErrorPolicy::Strict ==> r.invalid_rows <= 1
        }),
{
    lemma_report_shape(rows, mapping, policy, rows.len() as int);
}

/// The export's objects are those of the rows it examined that had no error,
/// in file order: row `k` (numbered `k + 1`) gives its object exactly when it
/// was examined (strict mode had not stopped before it) and is valid.
pub proof fn law_export_objects_are_valid_rows(rows: Seq<Vec<RawCell>>, mapping: Seq<ColumnConfig>, policy: ErrorPolicy, n: int)
    requires
        0 <= n < rows.len(),
    ensures
        ({
            let before = export_upto(rows, mapping, policy, n);
            let after = export_upto(rows, mapping, policy, n + 1);
            &&& after.rows.len() <= before.rows.len() + 1
            &&& after.rows.subrange(0, before.rows.len() as int) == before.rows
            &&& after.rows.len() == before.rows.len() + 1 <==> !before.report.stopped_early
                && row_errors((n + 1) as nat, rows[n]@, mapping).len() == 0
            &&& after.rows.len() == before.rows.len() + 1 ==> after.rows.last() == row_entries(rows[n]@, mapping)
        }),
{
    let before = export_upto(rows, mapping, policy, n);
    let after = export_upto(rows, mapping, policy, n + 1);
    assert(after.rows.subrange(0, before.rows.len() as int) =~= before.rows);
}

} // verus!

verus! {


/// The boolean words: a cell whose lower-case text is `true`, `verdadeiro`,
/// `sim` or `1` reads as true; one whose lower-case text is `false`, `falso`,
/// `não`, `nao` or `0` reads as false. ASCII text is lower-cased letter by
/// letter, so these words are read in any mix of cases.
#[verifier::spinoff_prover]
pub proof fn law_boolean_words(v: Seq<char>)
    ensures
        lower_case(v) == seq!['t', 'r', 'u', 'e'] || lower_case(v) == seq!['v', 'e', 'r', 'd', 'a', 'd', 'e', 'i', 'r', 'o']
            || lower_case(v) == seq!['s', 'i', 'm'] || lower_case(v) == seq!['1']
            ==> boolean_reading(v) == Ok::<ParsedView, Seq<char>>(ParsedView::Boolean(true)),
        lower_case(v) == seq!['f', 'a', 'l', 's', 'e'] || lower_case(v) == seq!['f', 'a', 'l', 's', 'o']
            || lower_case(v) == seq!['n', 'ã', 'o'] || lower_case(v) == seq!['n', 'a', 'o']
            || lower_case(v) == seq!['0']
            ==> boolean_reading(v) == Ok::<ParsedView, Seq<char>>(ParsedView::Boolean(false)),
        all_ascii(v) ==> lower_case(v) == v.map_values(|c: char| ascii_lower(c)),
{
    reveal_strlit("true");
    reveal_strlit("verdadeiro");
    reveal_strlit("sim");
    reveal_strlit("1");
    reveal_strlit("false");
    reveal_strlit("falso");
    reveal_strlit("não");
    reveal_strlit("nao");
    reveal_strlit("0");
    let l = lower_case(v);
    if l == seq!['t', 'r', 'u', 'e'] {
        assert(l =~= "true"@);
    } else if l == seq!['v', 'e', 'r', 'd', 'a', 'd', 'e', 'i', 'r', 'o'] {
        assert(l =~= "verdadeiro"@);
    } else if l == seq!['s', 'i', 'm'] {
        assert(l =~= "sim"@);
    } else if l == seq!['1'] {
        assert(l =~= "1"@);
    } else if l == seq!['f', 'a', 'l', 's', 'e'] {
        assert(l =~= "false"@);
        assert(l != "true"@ && l != "verdadeiro"@ && l != "sim"@ && l != "1"@);
    } else if l == seq!['f', 'a', 'l', 's', 'o'] {
        assert(l =~= "falso"@);
        assert(l != "true"@ && l != "verdadeiro"@ && l != "sim"@ && l != "1"@);
    } else if l == seq!['n', 'ã', 'o'] {
        assert(l =~= "não"@);
        assert(l[0] != "sim"@[0] && l.len() != "true"@.len() && l.len() != "1"@.len() && l.len() != "verdadeiro"@.len());
    } else if l == seq!['n', 'a', 'o'] {
        assert(l =~= "nao"@);
        assert(l[0] != "sim"@[0] && l.len() != "true"@.len() && l.len() != "1"@.len() && l.len() != "verdadeiro"@.len());
    } else if l == seq!['0'] {
        assert(l =~= "0"@);
        assert(l[0] != "1"@[0] && l.len() != "true"@.len() && l.len() != "sim"@.len() && l.len() != "verdadeiro"@.len());
    }
}

} // verus!

verus! {

/// A number cell is taken exactly when its text, decimal commas made points,
/// reads as a float, and its value is then that text.
pub proof fn law_numbers_read_as_floats(v: Seq<char>)
    ensures
        number_reading(v) is Ok <==> is_float_literal(commas_to_points(v)),
        is_float_literal(commas_to_points(v)) ==> number_reading(v) == Ok::<ParsedView, Seq<char>>(
            ParsedView::Number(commas_to_points(v)),
        ),
{
}

proof fn lemma_no_commas(a: Seq<char>)
    requires
        all_digits(a),
    ensures
        commas_to_points(a) == a,
{
    assert(commas_to_points(a) =~= a);
}

/// Plain decimals are numbers, whatever digit they start with: a run of digits
/// reads as itself, with or without a leading minus sign; digits with one
/// decimal comma or point (at least one digit in all) read with a point.
pub proof fn law_plain_decimals_are_numbers(a: Seq<char>, b: Seq<char>)
    requires
        all_digits(a),
        all_digits(b),
    ensures
        a.len() > 0 ==> number_reading(a) == Ok::<ParsedView, Seq<char>>(ParsedView::Number(a)),
        a.len() > 0 ==> number_reading(seq!['-'] + a) == Ok::<ParsedView, Seq<char>>(
            ParsedView::Number(seq!['-'] + a),
        ),
        a.len() + b.len() > 0 ==> number_reading(a + seq![','] + b) == Ok::<ParsedView, Seq<char>>(
            ParsedView::Number(a + seq!['.'] + b),
        ),
        a.len() + b.len() > 0 ==> number_reading(a + seq!['.'] + b) == Ok::<ParsedView, Seq<char>>(
            ParsedView::Number(a + seq!['.'] + b),
        ),
{
    lemma_no_commas(a);
    if a.len() > 0 {
        assert(is_mantissa(a));
        assert(is_decimal_number(a));
        assert(!crate::text::is_sign(a[0]));
        let m = seq!['-'] + a;
        assert(commas_to_points(m) =~= m);
        assert(m.drop_first() =~= a);
    }
    if a.len() + b.len() > 0 {
        let d = a + seq!['.'] + b;
        let c = a + seq![','] + b;
        assert(commas_to_points(c) =~= d);
        assert(commas_to_points(d) =~= d);
        assert forall|i: int| 0 <= i < d.len() implies is_digit(#[trigger] d[i]) || d[i] == '.' by {
            if i < a.len() {
                assert(d[i] == a[i]);
            } else if i > a.len() {
                assert(d[i] == b[i - a.len() - 1]);
            }
        }
        assert forall|i: int, j: int|
            0 <= i < d.len() && 0 <= j < d.len() && #[trigger] d[i] == '.' && #[trigger] d[j] == '.'
                implies i == j by {
            if i < a.len() {
                assert(d[i] == a[i]);
            } else if i > a.len() {
                assert(d[i] == b[i - a.len() - 1]);
            }
            if j < a.len() {
                assert(d[j] == a[j]);
            } else if j > a.len() {
                assert(d[j] == b[j - a.len() - 1]);
            }
        }
        assert(is_mantissa(d));
        assert(is_decimal_number(d));
        if a.len() > 0 {
            assert(d[0] == a[0]);
        } else {
            assert(d[0] == '.');
        }
        assert(!crate::text::is_sign(d[0]));
    }
}

} // verus!

verus! {

/// Day-first dates are read with a slash first and with a dash after, whatever
/// the text's length: when chrono reads `DD/MM/YYYY` from the text, that date
/// is taken; when it reads none that way but reads `DD-MM-YYYY`, that date is
/// taken; either is written `AAAA-MM-DD` when its year has four digits.
pub proof fn law_day_first_dates(v: Seq<char>, x: (i32, u32, u32))
    ensures
        chrono_parsed_date(v, "%d/%m/%Y"@) == Some(x) && writable_date(x) ==> european_reading(v)
            == Some(iso_date_text(x)),
        chrono_parsed_date(v, "%d/%m/%Y"@) is None && chrono_parsed_date(v, "%d-%m-%Y"@) == Some(x)
            && writable_date(x) ==> european_reading(v) == Some(iso_date_text(x)),
        chrono_parsed_date(v, "%d/%m/%Y"@) is None && chrono_parsed_date(v, "%d-%m-%Y"@) is None
            ==> european_reading(v) is None,
{
}

} // verus!

verus! {

/// What a filled cell puts in its row's object is the value it reads as, in
/// the JSON form of its column's type: a text column's trimmed text as a JSON
/// string (even when it looks like a number), a number as a JSON number written
/// from its literal, a boolean as a JSON boolean, a date as its `AAAA-MM-DD`
/// string.
pub proof fn law_filled_cells_export_their_value(row: Seq<RawCell>, config: ColumnConfig, i: int)
    requires
        cell_filled(row, i),
    ensures
        config.column_type == ColumnType::Text ==> cell_json(row, config, i) == Some(
            JsonFieldView::String(trimmed(row[i].text@)),
        ),
        config.column_type == ColumnType::Number && is_float_literal(
            commas_to_points(trimmed(row[i].text@)),
        ) ==> cell_json(row, config, i) == Some(
            JsonFieldView::Number(commas_to_points(trimmed(row[i].text@))),
        ),
        config.column_type == ColumnType::Boolean && boolean_reading(trimmed(row[i].text@)) is Ok
            ==> cell_json(row, config, i) == Some(
            JsonFieldView::Bool(boolean_reading(trimmed(row[i].text@))->Ok_0->Boolean_0),
        ),
        config.column_type == ColumnType::Date && date_reading(trimmed(row[i].text@), row[i].serial_days)
            is Ok ==> cell_json(row, config, i) == Some(
            JsonFieldView::String(date_reading(trimmed(row[i].text@), row[i].serial_days)->Ok_0->Date_0),
        ),
{
    law_trim_idempotent(row[i].text@);
}

/// In a valid row whose columns have distinct headers, a filled text column's
/// key holds the cell's trimmed text as a JSON string.
pub proof fn law_text_cells_export_as_strings(row: Seq<RawCell>, mapping: Seq<ColumnConfig>, i: int)
    requires
        distinct_headers(mapping),
        0 <= i < mapping.len(),
        mapping[i].column_type == ColumnType::Text,
        cell_filled(row, i),
    ensures
        object_map(row_entries(row, mapping)).dom().contains(mapping[i].header@),
        object_map(row_entries(row, mapping))[mapping[i].header@] == JsonFieldView::String(
            trimmed(row[i].text@),
        ),
{
    law_filled_cells_export_their_value(row, mapping[i], i);
    lemma_object_upto(row, mapping, mapping.len() as int);
}

} // verus!

verus! {

/// The reader follows the extension in any case: `csv` chooses the CSV reader,
/// `xlsx` and `xls` the spreadsheet reader, and any other extension is refused.
pub proof fn law_supported_extensions(extension: Seq<char>)
    ensures
        lower_case(extension) == seq!['c', 's', 'v'] ==> extension_outcome(extension) == Ok::<FileKind, Seq<char>>(
            FileKind::Csv,
        ),
        lower_case(extension) == seq!['x', 'l', 's', 'x'] || lower_case(extension) == seq!['x', 'l', 's']
            ==> extension_outcome(extension) == Ok::<FileKind, Seq<char>>(FileKind::Spreadsheet),
        lower_case(extension) != seq!['c', 's', 'v'] && lower_case(extension) != seq!['x', 'l', 's', 'x']
            && lower_case(extension) != seq!['x', 'l', 's'] ==> extension_outcome(extension) is Err,
{
    reveal_strlit("csv");
    reveal_strlit("xlsx");
    reveal_strlit("xls");
    let l = lower_case(extension);
    if l == seq!['c', 's', 'v'] {
        assert(l =~= "csv"@);
        assert(l.len() != "xlsx"@.len() && l[0] != "xls"@[0]);
    } else if l == seq!['x', 'l', 's', 'x'] {
        assert(l =~= "xlsx"@);
    } else if l == seq!['x', 'l', 's'] {
        assert(l =~= "xls"@);
    } else {
        assert(l != "csv"@ && l != "xlsx"@ && l != "xls"@) by {
            if l == "csv"@ {
                assert(l =~= seq!['c', 's', 'v']);
            }
            if l == "xlsx"@ {
                assert(l =~= seq!['x', 'l', 's', 'x']);
            }
            if l == "xls"@ {
                assert(l =~= seq!['x', 'l', 's']);
            }
        }
    }
}

/// A file name's extension is what follows its last point, whatever directory,
/// Unix or Windows, comes before it: a path as a file dialog gives it ends in
/// the file name that follows its last `/`, `\` or `:`, and that name's
/// extension is the text after its last point.
pub proof fn law_final_name_after_directories(dir: Seq<char>, sep: char, name: Seq<char>)
    requires
        sep == '/' || sep == '\\' || sep == ':',
        forall|i: int| 0 <= i < name.len() ==> #[trigger] name[i] != '/' && name[i] != '\\' && name[i] != ':',
    ensures
        final_name(dir + seq![sep] + name) == name,
{
    let p = dir + seq![sep] + name;
    lemma_last_index_in_tail(dir + seq![sep], name, '/');
    lemma_last_index_in_tail(dir + seq![sep], name, '\\');
    lemma_last_index_in_tail(dir + seq![sep], name, ':');
    assert(p.subrange((dir.len() + 1) as int, p.len() as int) =~= name);
}

proof fn lemma_last_index_in_tail(head: Seq<char>, tail: Seq<char>, c: char)
    requires
        forall|i: int| 0 <= i < tail.len() ==> #[trigger] tail[i] != c,
    ensures
        last_index_of(head + tail, c) == last_index_of(head, c),
        head.len() > 0 && head.last() == c ==> last_index_of(head, c) == head.len() - 1,
        -1 <= last_index_of(head, c) < head.len(),
    decreases tail.len(),
{
    lemma_last_index_bounds(head, c);
    if tail.len() > 0 {
        let p = head + tail;
        assert(p.last() == tail.last());
        assert(p.drop_last() =~= head + tail.drop_last());
        lemma_last_index_in_tail(head, tail.drop_last(), c);
    } else {
        assert(head + tail =~= head);
    }
}

proof fn lemma_last_index_bounds(p: Seq<char>, c: char)
    ensures
        -1 <= last_index_of(p, c) < p.len(),
        last_index_of(p, c) >= 0 ==> p[last_index_of(p, c)] == c,
    decreases p.len(),
{
    if p.len() > 0 && p.last() != c {
        lemma_last_index_bounds(p.drop_last(), c);
    }
}

} // verus!
