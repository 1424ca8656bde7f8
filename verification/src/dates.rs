//! Reading dates: spreadsheet serial numbers, ISO 8601 and day-first dates, all
//! normalised to `AAAA-MM-DD` (four-digit year, month, day).

use vstd::prelude::*;
use chrono::{Datelike, NaiveDate};
use vstd::utf8::{decode_utf8, encode_utf8, is_char_boundary};

verus! {

/// The date (year, month, day) that `chrono::NaiveDate::from_num_days_from_ce_opt`
/// gives for a day number, 0001-01-01 being day 1; `None` where chrono's
/// calendar ends.
pub uninterp spec fn chrono_date_from_days(days: i32) -> Option<(i32, u32, u32)>;

/// The date (year, month, day) that `chrono::NaiveDate::parse_from_str` reads
/// from `text` with the strftime-style `format`; `None` where it fails.
pub uninterp spec fn chrono_parsed_date(text: Seq<char>, format: Seq<char>) -> Option<(i32, u32, u32)>;

/// A leap year of the proleptic Gregorian calendar.
pub open spec fn is_leap_year(y: int) -> bool {
    (y % 4 == 0 && y % 100 != 0) || y % 400 == 0
}

pub open spec fn days_in_month(y: int, m: int) -> int {
    if m == 2 {
        if is_leap_year(y) { 29 } else { 28 }
    } else if m == 4 || m == 6 || m == 9 || m == 11 {
        30
    } else {
        31
    }
}

/// A date that exists in the proleptic Gregorian calendar.
pub open spec fn valid_calendar_date(date: (i32, u32, u32)) -> bool {
    &&& 1 <= date.1 <= 12
    &&& 1 <= date.2 <= days_in_month(date.0 as int, date.1 as int)
}

/// Days in the months before month `m` of a common year.
pub open spec fn days_before_month(m: int) -> int {
    if m <= 1 { 0 }
    else if m == 2 { 31 }
    else if m == 3 { 59 }
    else if m == 4 { 90 }
    else if m == 5 { 120 }
    else if m == 6 { 151 }
    else if m == 7 { 181 }
    else if m == 8 { 212 }
    else if m == 9 { 243 }
    else if m == 10 { 273 }
    else if m == 11 { 304 }
    else { 334 }
}

/// The day number of a date in the proleptic Gregorian calendar, January 1 of
/// year 1 being day 1.
pub open spec fn days_from_ce(date: (i32, u32, u32)) -> int {
    let y = date.0 as int - 1;
    365 * y + y / 4 - y / 100 + y / 400 + days_before_month(date.1 as int) + (if is_leap_year(
        date.0 as int,
    ) && date.1 > 2 {
        1int
    } else {
        0int
    }) + date.2 as int
}

/// Calls `NaiveDate::from_num_days_from_ce_opt` and reads back the date's year,
/// month and day. Claims that the result is what `chrono_date_from_days` names;
/// and, as chrono documents, that a date it gives is a proleptic Gregorian
/// calendar date (a `NaiveDate` is always one) whose day number, January 1 of
/// year 1 being day 1, is `days`. Where its calendar ends is left unstated.
#[verifier::external_body]
fn date_from_days_from_ce(days: i32) -> (r: Option<(i32, u32, u32)>)
    ensures
        r == chrono_date_from_days(days),
        r matches Some(date) ==> valid_calendar_date(date) && days_from_ce(date) == days,
{
    match NaiveDate::from_num_days_from_ce_opt(days) {
        Some(date) => Some((date.year(), date.month(), date.day())),
        None => None,
    }
}

/// Calls `NaiveDate::parse_from_str` and reads back the date's year, month and
/// day. Claims that the result is what `chrono_parsed_date` names, and that it
/// is a proleptic Gregorian calendar date (a `NaiveDate` is always one).
#[verifier::external_body]
fn parse_date(text: &str, format: &str) -> (r: Option<(i32, u32, u32)>)
    ensures
        r == chrono_parsed_date(text@, format@),
        r matches Some(date) ==> valid_calendar_date(date),
{
    match NaiveDate::parse_from_str(text, format) {
        Ok(date) => Some((date.year(), date.month(), date.day())),
        Err(_) => None,
    }
}

pub open spec fn digit_char(d: nat) -> char {
    (d + 48) as char
}

/// The decimal digits of `n`, most significant first, without leading zeros.
pub open spec fn decimal(n: nat) -> Seq<char>
    decreases n,
{
    if n < 10 {
        seq![digit_char(n)]
    } else {
        decimal(n / 10).push(digit_char(n % 10))
    }
}

/// `decimal(n)` with zeros in front up to `width` characters.
pub open spec fn zero_padded(n: nat, width: nat) -> Seq<char> {
    if decimal(n).len() >= width {
        decimal(n)
    } else {
        Seq::new((width - decimal(n).len()) as nat, |i: int| '0') + decimal(n)
    }
}

/// A calendar date that `AAAA-MM-DD` can write: its year has four digits.
pub open spec fn writable_date(date: (i32, u32, u32)) -> bool {
    &&& 0 <= date.0 <= 9999
    &&& valid_calendar_date(date)
}

/// A date written as `AAAA-MM-DD` (what chrono's `%Y-%m-%d` writes for years
/// 0 to 9999).
pub open spec fn iso_date_text(date: (i32, u32, u32)) -> Seq<char> {
    zero_padded(date.0 as nat, 4) + seq!['-'] + zero_padded(date.1 as nat, 2) + seq!['-']
        + zero_padded(date.2 as nat, 2)
}

fn push_decimal(out: &mut String, n: u64)
    ensures
        final(out)@ == old(out)@ + decimal(n as nat),
    decreases n,
{
    if n >= 10 {
        push_decimal(out, n / 10);
    }
    let d = (n % 10) as u8;
    crate::text::push_char(out, (d + 48) as char);
}

pub proof fn lemma_decimal_len(n: nat)
    ensures
        n < 10 ==> decimal(n).len() == 1,
        10 <= n < 100 ==> decimal(n).len() == 2,
        100 <= n < 1000 ==> decimal(n).len() == 3,
        1000 <= n < 10000 ==> decimal(n).len() == 4,
        1000 <= n ==> decimal(n).len() >= 4,
    decreases n,
{
    if n >= 10 {
        lemma_decimal_len(n / 10);
    }
}

fn push_zero_padded(out: &mut String, n: u64, width: usize)
    requires
        width == 2 || width == 4,
        width == 2 ==> n < 100,
    ensures
        final(out)@ == old(out)@ + zero_padded(n as nat, width as nat),
{
    proof {
        lemma_decimal_len(n as nat);
    }
    let ghost start = out@;
    if width == 4 && n < 1000 {
        crate::text::push_char(out, '0');
        if n < 100 {
            crate::text::push_char(out, '0');
        }
        if n < 10 {
            crate::text::push_char(out, '0');
        }
    } else if width == 2 && n < 10 {
        crate::text::push_char(out, '0');
    }
    let ghost zeros = out@.subrange(start.len() as int, out@.len() as int);
    assert(out@ =~= start + zeros);
    assert(zeros =~= Seq::new((width - decimal(n as nat).len()) as nat, |i: int| '0') || decimal(n as nat).len() >= width);
    push_decimal(out, n);
    assert(out@ =~= start + zero_padded(n as nat, width as nat));
}

/// Writes a date as `AAAA-MM-DD`.
pub fn format_iso_date(date: (i32, u32, u32)) -> (r: String)
    requires
        0 <= date.0 <= 9999,
        date.1 < 100,
        date.2 < 100,
    ensures
        r@ == iso_date_text(date),
{
    let (y, m, d) = date;
    let mut out = String::new();
    push_zero_padded(&mut out, y as u64, 4);
    crate::text::push_char(&mut out, '-');
    push_zero_padded(&mut out, m as u64, 2);
    crate::text::push_char(&mut out, '-');
    push_zero_padded(&mut out, d as u64, 2);
    assert(out@ =~= iso_date_text(date));
    out
}

} // verus!
verus! {

/// Day number (0001-01-01 being day 1) of 1899-12-30, day 0 of spreadsheet
/// serial dates.
pub const SERIAL_EPOCH_DAYS_FROM_CE: i64 = 693594;

/// The date that spreadsheet serial day `days` falls on, if chrono's calendar
/// reaches it.
pub open spec fn serial_date(days: i64) -> Option<(i32, u32, u32)> {
    if i32::MIN <= days + SERIAL_EPOCH_DAYS_FROM_CE <= i32::MAX {
        chrono_date_from_days((days + SERIAL_EPOCH_DAYS_FROM_CE) as i32)
    } else {
        None
    }
}

/// The `AAAA-MM-DD` text of a date, when it is one that format can write.
pub open spec fn written_date(date: Option<(i32, u32, u32)>) -> Option<Seq<char>> {
    match date {
        Some(d) => if writable_date(d) {
            Some(iso_date_text(d))
        } else {
            None
        },
        None => None,
    }
}

/// Writes a date as `AAAA-MM-DD` when its year has four digits.
fn write_date(date: Option<(i32, u32, u32)>) -> (r: Option<String>)
    requires
        date matches Some(x) ==> valid_calendar_date(x),
    ensures
        match r {
            Some(s) => written_date(date) == Some(s@),
            None => written_date(date) is None,
        },
{
    match date {
        Some((y, m, d)) => if 0 <= y && y <= 9999 {
            Some(format_iso_date((y, m, d)))
        } else {
            None
        },
        None => None,
    }
}

/// Converts a spreadsheet serial day (days since 1899-12-30) to `AAAA-MM-DD`;
/// `None` when the day lies beyond chrono's calendar or outside years 0 to 9999.
pub fn excel_serial_to_iso(days: i64) -> (r: Option<String>)
    ensures
        match r {
            Some(s) => written_date(serial_date(days)) == Some(s@),
            None => written_date(serial_date(days)) is None,
        },
        r matches Some(s) ==> exists|date: (i32, u32, u32)|
            writable_date(date) && days_from_ce(date) == days + SERIAL_EPOCH_DAYS_FROM_CE && s@
                == #[trigger] iso_date_text(date),
{
    if days < i32::MIN as i64 - SERIAL_EPOCH_DAYS_FROM_CE || days > i32::MAX as i64 - SERIAL_EPOCH_DAYS_FROM_CE {
        return None;
    }
    write_date(date_from_days_from_ce((days + SERIAL_EPOCH_DAYS_FROM_CE) as i32))
}

/// The text that an ISO date is read from: its first ten bytes when they end on
/// a character boundary (a date with a time attached), else the whole text.
pub open spec fn iso_candidate(v: Seq<char>) -> Seq<char> {
    if is_char_boundary(encode_utf8(v), 10) {
        decode_utf8(encode_utf8(v).subrange(0, 10))
    } else {
        v
    }
}

/// A date read with chrono's `format`, written as `AAAA-MM-DD`; `None` when
/// chrono reads none or its year is outside 0 to 9999.
pub open spec fn date_read_with(text: Seq<char>, format: Seq<char>) -> Option<Seq<char>> {
    written_date(chrono_parsed_date(text, format))
}

pub open spec fn iso_reading(v: Seq<char>) -> Option<Seq<char>> {
    date_read_with(iso_candidate(v), "%Y-%m-%d"@)
}

pub open spec fn european_reading(v: Seq<char>) -> Option<Seq<char>> {
    match date_read_with(v, "%d/%m/%Y"@) {
        Some(s) => Some(s),
        None => date_read_with(v, "%d-%m-%Y"@),
    }
}

/// Reads `YYYY-MM-DD` at the start of `value`, written back as `AAAA-MM-DD`.
pub fn try_parse_iso_date(value: &str) -> (r: Option<String>)
    ensures
        match r {
            Some(s) => iso_reading(value@) == Some(s@),
            None => iso_reading(value@) is None,
        },
{
    let candidate = if value.is_char_boundary(10) {
        let (head, _) = value.split_at(10);
        proof {
            vstd::utf8::encode_utf8_decode_utf8(head@);
        }
        head
    } else {
        value
    };
    assert(candidate@ == iso_candidate(value@));
    write_date(parse_date(candidate, "%Y-%m-%d"))
}

/// Reads `DD/MM/YYYY`, then `DD-MM-YYYY`.
pub fn try_parse_european_date(value: &str) -> (r: Option<String>)
    ensures
        match r {
            Some(s) => european_reading(value@) == Some(s@),
            None => european_reading(value@) is None,
        },
        chrono_parsed_date(value@, "%d/%m/%Y"@) is Some && writable_date(
            chrono_parsed_date(value@, "%d/%m/%Y"@)->0,
        ) ==> r is Some && r->0@ == iso_date_text(chrono_parsed_date(value@, "%d/%m/%Y"@)->0),
        chrono_parsed_date(value@, "%d/%m/%Y"@) is None && chrono_parsed_date(value@, "%d-%m-%Y"@) is Some
            && writable_date(chrono_parsed_date(value@, "%d-%m-%Y"@)->0) ==> r is Some && r->0@
            == iso_date_text(chrono_parsed_date(value@, "%d-%m-%Y"@)->0),
        chrono_parsed_date(value@, "%d/%m/%Y"@) is None && chrono_parsed_date(value@, "%d-%m-%Y"@)
            is None ==> r is None,
{
    match write_date(parse_date(value, "%d/%m/%Y")) {
        Some(s) => Some(s),
        None => write_date(parse_date(value, "%d-%m-%Y")),
    }
}

} // verus!
