//! Reading one cell's text as the type its column is forced to.

use vstd::prelude::*;
use crate::dates::{
    european_reading, excel_serial_to_iso, iso_reading, serial_date, try_parse_european_date,
    try_parse_iso_date, written_date,
};
use crate::model::{parse_outcome, ColumnType, ParsedValue, ParsedView};
use crate::text::{
    commas_to_points, equals_str, float_literal, is_float_literal, lower_case,
    quote_then, quoted_then, replace_commas, to_lowercase, trim, trimmed,
};

verus! {

/// A number's reading: the text with decimal commas made points, if that reads
/// as a float; otherwise the message naming the text.
pub open spec fn number_reading(value: Seq<char>) -> Result<ParsedView, Seq<char>> {
    if is_float_literal(commas_to_points(value)) {
        Ok(ParsedView::Number(commas_to_points(value)))
    } else {
        Err(quoted_then(value, "\" não é um número válido"@))
    }
}

/// The words (already lower-cased) that read as a boolean.
pub open spec fn boolean_word(lower: Seq<char>) -> Option<bool> {
    if lower == "true"@ || lower == "verdadeiro"@ || lower == "sim"@ || lower == "1"@ {
        Some(true)
    } else if lower == "false"@ || lower == "falso"@ || lower == "não"@ || lower == "nao"@
        || lower == "0"@ {
        Some(false)
    } else {
        None
    }
}

pub open spec fn boolean_reading(value: Seq<char>) -> Result<ParsedView, Seq<char>> {
    match boolean_word(lower_case(value)) {
        Some(b) => Ok(ParsedView::Boolean(b)),
        None => Err(quoted_then(value, "\" não é um valor booleano reconhecido"@)),
    }
}

/// A date read as a spreadsheet serial number: only when the text reads as a
/// float, from the whole days that float gives (see `RawCell`).
pub open spec fn serial_reading(value: Seq<char>, serial_days: Option<i64>) -> Option<Seq<char>> {
    if is_float_literal(value) {
        match serial_days {
            Some(days) => written_date(serial_date(days)),
            None => None,
        }
    } else {
        None
    }
}

/// A date's reading: a serial number first, then ISO 8601, then day-first.
pub open spec fn date_reading(value: Seq<char>, serial_days: Option<i64>) -> Result<ParsedView, Seq<char>> {
    match serial_reading(value, serial_days) {
        Some(s) => Ok(ParsedView::Date(s)),
        None => match iso_reading(value) {
            Some(s) => Ok(ParsedView::Date(s)),
            None => match european_reading(value) {
                Some(s) => Ok(ParsedView::Date(s)),
                None => Err(quoted_then(value, "\" não corresponde a nenhum formato de data reconhecido"@)),
            },
        },
    }
}

/// What reading `raw` as `column_type` gives; `serial_days` is the cell's
/// float reading (see `RawCell`).
pub open spec fn value_reading(raw: Seq<char>, serial_days: Option<i64>, column_type: ColumnType) -> Result<ParsedView, Seq<char>> {
    let value = trimmed(raw);
    match column_type {
        ColumnType::Text => Ok(ParsedView::Text(value)),
        ColumnType::Number => number_reading(value),
        ColumnType::Boolean => boolean_reading(value),
        ColumnType::Date => date_reading(value, serial_days),
    }
}

/// Reads `raw_value`, trimmed, as `column_type`.
pub fn parse_value_as_type(raw_value: &str, column_type: &ColumnType, serial_days: Option<i64>) -> (r: Result<ParsedValue, String>)
    ensures
        parse_outcome(r) == value_reading(raw_value@, serial_days, *column_type),
{
    let trimmed_value = trim(raw_value);
    match column_type {
        ColumnType::Text => Ok(ParsedValue::Text(trimmed_value.to_string())),
        ColumnType::Number => parse_as_number(trimmed_value),
        ColumnType::Boolean => parse_as_boolean(trimmed_value),
        ColumnType::Date => parse_as_date(trimmed_value, serial_days),
    }
}

/// Reads a number, accepting a decimal comma.
pub fn parse_as_number(value: &str) -> (r: Result<ParsedValue, String>)
    ensures
        parse_outcome(r) == number_reading(value@),
        r is Ok <==> is_float_literal(commas_to_points(value@)),
        r matches Ok(v) ==> v@ == ParsedView::Number(commas_to_points(value@)),
{
    let normalized = replace_commas(value);
    if float_literal(normalized.as_str()) {
        Ok(ParsedValue::Number(normalized))
    } else {
        Err(quote_then(value, "\" não é um número válido"))
    }
}

/// The boolean that an already lower-cased word stands for, if any.
pub fn boolean_from_lowercase(normalized: &String) -> (r: Option<bool>)
    ensures
        r == boolean_word(normalized@),
        normalized@ == "true"@ || normalized@ == "verdadeiro"@ || normalized@ == "sim"@
            || normalized@ == "1"@ ==> r == Some(true),
        normalized@ == "false"@ || normalized@ == "falso"@ || normalized@ == "não"@
            || normalized@ == "nao"@ || normalized@ == "0"@ ==> r == Some(false),
{
    proof {
        reveal_strlit("true");
        reveal_strlit("verdadeiro");
        reveal_strlit("sim");
        reveal_strlit("1");
        reveal_strlit("false");
        reveal_strlit("falso");
        reveal_strlit("não");
        reveal_strlit("nao");
        reveal_strlit("0");
        assert("não"@[0] != "sim"@[0] && "nao"@[0] != "sim"@[0] && "0"@[0] != "1"@[0]);
        assert("false"@.len() == 5 && "falso"@.len() == 5 && "não"@.len() == 3);
        assert("true"@.len() == 4 && "verdadeiro"@.len() == 10 && "1"@.len() == 1);
    }
    if equals_str(normalized, "true") || equals_str(normalized, "verdadeiro") || equals_str(
        normalized,
        "sim",
    ) || equals_str(normalized, "1") {
        Some(true)
    } else if equals_str(normalized, "false") || equals_str(normalized, "falso") || equals_str(
        normalized,
        "não",
    ) || equals_str(normalized, "nao") || equals_str(normalized, "0") {
        Some(false)
    } else {
        None
    }
}

/// Reads a boolean word (Portuguese or English), in any case.
pub fn parse_as_boolean(value: &str) -> (r: Result<ParsedValue, String>)
    ensures
        parse_outcome(r) == boolean_reading(value@),
{
    let normalized = to_lowercase(value);
    match boolean_from_lowercase(&normalized) {
        Some(b) => Ok(ParsedValue::Boolean(b)),
        None => Err(quote_then(value, "\" não é um valor booleano reconhecido")),
    }
}

/// Reads a date, written back as `AAAA-MM-DD`: a spreadsheet serial number
/// (`serial_days`, used only when `value` reads as a float), `YYYY-MM-DD` (a
/// time may follow), `DD/MM/YYYY` or `DD-MM-YYYY`. A date whose year is not
/// 0 to 9999 is not taken.
pub fn parse_as_date(value: &str, serial_days: Option<i64>) -> (r: Result<ParsedValue, String>)
    ensures
        parse_outcome(r) == date_reading(value@, serial_days),
{
    if float_literal(value) {
        if let Some(days) = serial_days {
            if let Some(date_str) = excel_serial_to_iso(days) {
                return Ok(ParsedValue::Date(date_str));
            }
        }
    }
    if let Some(date_str) = try_parse_iso_date(value) {
        return Ok(ParsedValue::Date(date_str));
    }
    if let Some(date_str) = try_parse_european_date(value) {
        return Ok(ParsedValue::Date(date_str));
    }
    Err(quote_then(value, "\" não corresponde a nenhum formato de data reconhecido"))
}

} // verus!
