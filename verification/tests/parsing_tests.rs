use chrono::Datelike;
use conversor_json::model::{ColumnType, ParsedValue, RawCell};
use conversor_json::parsing::{
    boolean_from_lowercase, parse_as_boolean, parse_as_date, parse_as_number, parse_value_as_type,
};
use conversor_json::dates::{excel_serial_to_iso, format_iso_date, try_parse_european_date, try_parse_iso_date, SERIAL_EPOCH_DAYS_FROM_CE};
use conversor_json::text::{float_literal, is_white_space_char, trim};

fn serial_of(text: &str) -> Option<i64> {
    text.trim().parse::<f64>().ok().map(|f| f as i64)
}

fn parse(raw: &str, ty: ColumnType) -> Result<ParsedValue, String> {
    parse_value_as_type(raw, &ty, serial_of(raw))
}

fn text_of(v: &Result<ParsedValue, String>) -> String {
    match v {
        Ok(ParsedValue::Text(s)) => format!("text:{}", s),
        Ok(ParsedValue::Number(s)) => format!("number:{}", s),
        Ok(ParsedValue::Boolean(b)) => format!("bool:{}", b),
        Ok(ParsedValue::Date(s)) => format!("date:{}", s),
        Err(e) => format!("err:{}", e),
    }
}

#[test]
fn text_is_trimmed() {
    assert_eq!(text_of(&parse("  olá mundo \t", ColumnType::Text)), "text:olá mundo");
}

#[test]
fn number_accepts_decimal_comma() {
    assert_eq!(text_of(&parse_as_number("1,5")), "number:1.5");
    assert_eq!(text_of(&parse(" 42 ", ColumnType::Number)), "number:42");
    assert_eq!(text_of(&parse("-3.25e2", ColumnType::Number)), "number:-3.25e2");
}

#[test]
fn number_rejections_name_the_value() {
    assert_eq!(text_of(&parse_as_number("abc")), "err:\"abc\" não é um número válido");
    assert_eq!(text_of(&parse_as_number("1,234,5")), "err:\"1,234,5\" não é um número válido");
    assert_eq!(text_of(&parse(" 12a ", ColumnType::Number)), "err:\"12a\" não é um número válido");
}

#[test]
fn float_grammar_matches_std() {
    let samples = [
        "0", "1", "1.", ".5", "1.5", "1e5", "1E+5", "1e-5", "+1", "-1", "inf", "-Infinity", "NaN", "nAn",
        "infinity", "INF", ".", "", "+", "-", "e5", "1e", "1e+", "1.2.3", "1..2", "--1", "+-1", "1 2",
        " 1", "1_000", "0x10", "١", "1e5.5", "infinit", "nana", "Inf1", "12345678901234567890.5",
    ];
    for s in samples {
        assert_eq!(float_literal(s), s.parse::<f64>().is_ok(), "sample {:?}", s);
    }
}

#[test]
fn booleans_in_any_case() {
    assert_eq!(text_of(&parse_as_boolean("SIM")), "bool:true");
    assert_eq!(text_of(&parse_as_boolean("Verdadeiro")), "bool:true");
    assert_eq!(text_of(&parse_as_boolean("1")), "bool:true");
    assert_eq!(text_of(&parse_as_boolean("NÃO")), "bool:false");
    assert_eq!(text_of(&parse_as_boolean("nao")), "bool:false");
    assert_eq!(text_of(&parse_as_boolean("False")), "bool:false");
    assert_eq!(text_of(&parse_as_boolean("talvez")), "err:\"talvez\" não é um valor booleano reconhecido");
    assert_eq!(boolean_from_lowercase(&"TRUE".to_string()), None);
    assert_eq!(boolean_from_lowercase(&"true".to_string()), Some(true));
}

#[test]
fn serial_dates_count_from_1899_12_30() {
    assert_eq!(excel_serial_to_iso(0), Some("1899-12-30".to_string()));
    assert_eq!(excel_serial_to_iso(45000), Some("2023-03-15".to_string()));
    assert_eq!(excel_serial_to_iso(-1), Some("1899-12-29".to_string()));
    assert_eq!(text_of(&parse("45000.9", ColumnType::Date)), "date:2023-03-15");
    assert_eq!(text_of(&parse("-0.5", ColumnType::Date)), "date:1899-12-30");
}

#[test]
fn serial_epoch_is_chrono_day_number_of_1899_12_30() {
    let epoch = chrono::NaiveDate::from_ymd_opt(1899, 12, 30).unwrap();
    assert_eq!(epoch.num_days_from_ce() as i64, SERIAL_EPOCH_DAYS_FROM_CE);
    for days in [-693593i64, -1, 0, 1, 60, 45000, 2958465] {
        let expected = (epoch + chrono::Duration::days(days)).format("%Y-%m-%d").to_string();
        assert_eq!(excel_serial_to_iso(days), Some(expected));
    }
}

#[test]
fn serial_dates_outside_four_digit_years_are_not_dates() {
    // 2958466 is 10000-01-01 and -693960 is -0001-12-31.
    assert_eq!(excel_serial_to_iso(2958466), None);
    assert_eq!(excel_serial_to_iso(3000000), None);
    assert_eq!(excel_serial_to_iso(-693960), None);
    assert_eq!(excel_serial_to_iso(-693959), Some("0000-01-01".to_string()));
    assert_eq!(excel_serial_to_iso(i64::MAX), None);
    assert_eq!(excel_serial_to_iso(i64::MIN), None);
    assert_eq!(excel_serial_to_iso(100_000_000), None);
    assert_eq!(
        text_of(&parse("3000000", ColumnType::Date)),
        "err:\"3000000\" não corresponde a nenhum formato de data reconhecido"
    );
    assert_eq!(
        text_of(&parse("1e300", ColumnType::Date)),
        "err:\"1e300\" não corresponde a nenhum formato de data reconhecido"
    );
    assert_eq!(text_of(&parse("inf", ColumnType::Date)), "err:\"inf\" não corresponde a nenhum formato de data reconhecido");
}

#[test]
fn serial_is_used_only_for_float_text() {
    // A serial reading given for text that is not a float is ignored.
    assert_eq!(text_of(&parse_as_date("05/03/2024", Some(45000))), "date:2024-03-05");
    assert_eq!(text_of(&parse_as_date("45000", Some(45000))), "date:2023-03-15");
    let cell = RawCell::new("05/03/2024".to_string(), Some(45000));
    assert_eq!(cell.serial_days, None);
    let cell = RawCell::new(" 45000.5 ".to_string(), Some(45000));
    assert_eq!(cell.serial_days, Some(45000));
}

#[test]
fn iso_dates_keep_the_date_part() {
    assert_eq!(try_parse_iso_date("2024-02-29"), Some("2024-02-29".to_string()));
    assert_eq!(try_parse_iso_date("2024-02-29T10:30:00"), Some("2024-02-29".to_string()));
    assert_eq!(try_parse_iso_date("2023-02-29"), None);
    assert_eq!(try_parse_iso_date("2024-1-5"), Some("2024-01-05".to_string()));
    assert_eq!(text_of(&parse("2024-03-05 12:00", ColumnType::Date)), "date:2024-03-05");
}

#[test]
fn european_dates_are_day_first() {
    assert_eq!(try_parse_european_date("05/03/2024"), Some("2024-03-05".to_string()));
    assert_eq!(try_parse_european_date("5-3-2024"), Some("2024-03-05".to_string()));
    assert_eq!(try_parse_european_date("31/02/2024"), None);
    assert_eq!(text_of(&parse("31/12/1999", ColumnType::Date)), "date:1999-12-31");
}

#[test]
fn unreadable_dates_name_the_value() {
    assert_eq!(
        text_of(&parse_as_date("amanhã", None)),
        "err:\"amanhã\" não corresponde a nenhum formato de data reconhecido"
    );
}

#[test]
fn dates_are_written_with_four_digit_years() {
    assert_eq!(format_iso_date((0, 1, 9)), "0000-01-09");
    assert_eq!(format_iso_date((987, 10, 9)), "0987-10-09");
    assert_eq!(format_iso_date((9999, 12, 31)), "9999-12-31");
    assert_eq!(try_parse_iso_date("+10000-01-01"), None);
    assert_eq!(try_parse_european_date("01/01/12345"), None);
}

#[test]
fn white_space_is_the_unicode_property() {
    for u in 0u32..=0x10FFFF {
        if let Some(c) = char::from_u32(u) {
            assert_eq!(is_white_space_char(c), c.is_whitespace(), "U+{:04X}", u);
            let padded = format!("{}{}x{}y{}", c, c, c, c);
            assert_eq!(trim(&padded), padded.trim(), "U+{:04X}", u);
        }
    }
}

#[test]
fn lower_case_of_ascii_text() {
    assert_eq!(parse_as_boolean("FALSE").is_ok(), true);
    assert_eq!(text_of(&parse_as_boolean("VerDadeiro")), "bool:true");
}

#[test]
fn raw_cell_holds_its_text() {
    let c = RawCell { text: "x".to_string(), serial_days: None };
    assert_eq!(c.text, "x");
}

#[test]
fn serial_dates_are_written_yyyy_mm_dd() {
    for days in (-693000i64..2958465).step_by(9973) {
        let s = excel_serial_to_iso(days).unwrap();
        let b = s.as_bytes();
        assert_eq!(b.len(), 10, "{}", s);
        assert_eq!((b[4], b[7]), (b'-', b'-'));
        assert!(b.iter().enumerate().all(|(i, c)| i == 4 || i == 7 || c.is_ascii_digit()));
    }
}

#[test]
fn trim_agrees_with_std() {
    for t in ["", " ", "\t\n a b \r\n", "\u{3000}x\u{2028}", "\u{200B}x", "abc", "  ", "\u{85}\u{a0}z"] {
        assert_eq!(trim(t), t.trim());
    }
}
