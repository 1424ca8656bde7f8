use conversor_json::export::{build_row_object, empty_cell_value, export_rows, parsed_value_to_json, record_export_row, ExportResult, JsonField};
use conversor_json::model::{
    ColumnConfig, ColumnType, EmptyCellStrategy, ErrorPolicy, ParsedValue, RawCell, ValidationReport,
};
use conversor_json::validation::{record_row, validate_row, validate_rows};

fn cell(text: &str) -> RawCell {
    RawCell::new(text.to_string(), text.trim().parse::<f64>().ok().map(|f| f as i64))
}

fn row(texts: &[&str]) -> Vec<RawCell> {
    texts.iter().map(|t| cell(t)).collect()
}

fn column(header: &str, column_type: ColumnType, empty_strategy: EmptyCellStrategy) -> ColumnConfig {
    ColumnConfig { header: header.to_string(), column_type, empty_strategy }
}

fn mapping() -> Vec<ColumnConfig> {
    vec![
        column("nome", ColumnType::Text, EmptyCellStrategy::Null),
        column("idade", ColumnType::Number, EmptyCellStrategy::Default),
        column("ativo", ColumnType::Boolean, EmptyCellStrategy::Omit),
        column("data", ColumnType::Date, EmptyCellStrategy::Default),
    ]
}

fn describe(field: &JsonField) -> String {
    match field {
        JsonField::Null => "null".to_string(),
        JsonField::Bool(b) => format!("{}", b),
        JsonField::String(s) => format!("{:?}", s),
        JsonField::Number(s) => format!("num {}", s),
        JsonField::Integer(i) => format!("int {}", i),
    }
}

#[test]
fn valid_row_has_no_errors() {
    let errors = validate_row(1, &row(&["Ana", "30", "sim", "2024-01-01"]), &mapping());
    assert!(errors.is_empty());
}

#[test]
fn errors_name_row_column_and_raw_value() {
    let errors = validate_row(7, &row(&["Ana", " abc ", "talvez", "ontem"]), &mapping());
    assert_eq!(errors.len(), 3);
    assert_eq!(errors[0].row_number, 7);
    assert_eq!(errors[0].column, "idade");
    assert_eq!(errors[0].raw_value, " abc ");
    assert_eq!(errors[0].reason, "\"abc\" não é um número válido");
    assert_eq!(errors[1].column, "ativo");
    assert_eq!(errors[2].column, "data");
    assert_eq!(errors[2].reason, "\"ontem\" não corresponde a nenhum formato de data reconhecido");
}

#[test]
fn blank_and_missing_cells_never_fail() {
    assert!(validate_row(1, &row(&["   ", "", "\t"]), &mapping()).is_empty());
    assert!(validate_row(1, &row(&[]), &mapping()).is_empty());
}

fn table() -> Vec<Vec<RawCell>> {
    vec![
        row(&["Ana", "30", "sim", "01/02/2024"]),
        row(&["Rui", "x", "y", "2024-01-01"]),
        row(&["Eva", "z", "não", ""]),
        row(&["Ivo", "4,5", "", "45000"]),
    ]
}

#[test]
fn tolerant_goes_through_every_row() {
    let report = validate_rows(&table(), &mapping(), &ErrorPolicy::Tolerant);
    assert_eq!(report.total_rows, 4);
    assert_eq!(report.valid_rows, 2);
    assert_eq!(report.invalid_rows, 2);
    assert_eq!(report.errors.len(), 3);
    assert_eq!(report.errors[2].row_number, 3);
    assert!(!report.stopped_early);
}

#[test]
fn strict_stops_at_the_first_invalid_row() {
    let report = validate_rows(&table(), &mapping(), &ErrorPolicy::Strict);
    assert_eq!(report.total_rows, 2);
    assert_eq!(report.valid_rows, 1);
    assert_eq!(report.invalid_rows, 1);
    assert_eq!(report.errors.len(), 2);
    assert!(report.errors.iter().all(|e| e.row_number == 2));
    assert!(report.stopped_early);
}

#[test]
fn strict_errors_begin_the_tolerant_errors() {
    let strict = validate_rows(&table(), &mapping(), &ErrorPolicy::Strict);
    let tolerant = validate_rows(&table(), &mapping(), &ErrorPolicy::Tolerant);
    for (a, b) in strict.errors.iter().zip(tolerant.errors.iter()) {
        assert_eq!((a.row_number, &a.column, &a.reason), (b.row_number, &b.column, &b.reason));
    }
    assert!(strict.total_rows <= tolerant.total_rows);
}

#[test]
fn counts_add_up_row_by_row() {
    let mut report = ValidationReport::new();
    for (i, r) in table().iter().enumerate() {
        let stop = record_row(&mut report, i + 1, r, &mapping(), &ErrorPolicy::Tolerant);
        assert!(!stop);
        assert_eq!(report.total_rows, report.valid_rows + report.invalid_rows);
    }
    assert_eq!(report.total_rows, 4);
}

#[test]
fn serial_day_beyond_the_calendar_is_not_a_date() {
    let rows = vec![row(&["Ana", "1", "sim", "1e300"])];
    let report = validate_rows(&rows, &mapping(), &ErrorPolicy::Tolerant);
    assert_eq!(report.invalid_rows, 1);
    assert_eq!(report.errors[0].column, "data");
    assert_eq!(report.errors[0].reason, "\"1e300\" não corresponde a nenhum formato de data reconhecido");
    let mut report = ValidationReport::new();
    assert!(!record_row(&mut report, 1, &rows[0], &mapping(), &ErrorPolicy::Tolerant));
    assert_eq!(report.total_rows, 1);
    assert_eq!(report.invalid_rows, 1);
}

#[test]
fn missing_and_blank_cells_behave_alike() {
    let short = row(&["Ana", "30"]);
    let padded = row(&["Ana", "30", "", "   "]);
    let longer = row(&["Ana", "30", "", "", "ignored", "x"]);
    for r in [&padded, &longer] {
        assert!(validate_row(1, r, &mapping()).is_empty());
        let a: Vec<(String, String)> = build_row_object(&short, &mapping()).entries.iter().map(|(k, v)| (k.clone(), describe(v))).collect();
        let b: Vec<(String, String)> = build_row_object(r, &mapping()).entries.iter().map(|(k, v)| (k.clone(), describe(v))).collect();
        assert_eq!(a, b);
    }
}

#[test]
fn surrounding_white_space_is_ignored() {
    let a = validate_row(1, &row(&[" x ", "  abc\t", " talvez "]), &mapping());
    let b = validate_row(1, &row(&["x", "abc", "talvez"]), &mapping());
    let reasons = |e: &Vec<conversor_json::model::ValidationError>| e.iter().map(|x| x.reason.clone()).collect::<Vec<_>>();
    assert_eq!(reasons(&a), reasons(&b));
}

#[test]
fn empty_cells_follow_their_strategy() {
    assert!(empty_cell_value(&EmptyCellStrategy::Omit, &ColumnType::Text).is_none());
    assert_eq!(describe(&empty_cell_value(&EmptyCellStrategy::Null, &ColumnType::Number).unwrap()), "null");
    assert_eq!(describe(&empty_cell_value(&EmptyCellStrategy::Default, &ColumnType::Text).unwrap()), "\"\"");
    assert_eq!(describe(&empty_cell_value(&EmptyCellStrategy::Default, &ColumnType::Date).unwrap()), "\"\"");
    assert_eq!(describe(&empty_cell_value(&EmptyCellStrategy::Default, &ColumnType::Number).unwrap()), "int 0");
    assert_eq!(describe(&empty_cell_value(&EmptyCellStrategy::Default, &ColumnType::Boolean).unwrap()), "false");
}

#[test]
fn parsed_values_become_json() {
    assert_eq!(describe(&parsed_value_to_json(ParsedValue::Date("2024-01-01".to_string()))), "\"2024-01-01\"");
    assert_eq!(describe(&parsed_value_to_json(ParsedValue::Number("1.5".to_string()))), "num 1.5");
    assert_eq!(describe(&parsed_value_to_json(ParsedValue::Boolean(true))), "true");
}

#[test]
fn row_object_holds_read_values_and_empty_strategies() {
    let object = build_row_object(&row(&[" Ana ", "", "", "5/3/2024"]), &mapping());
    let entries: Vec<(String, String)> = object.entries.iter().map(|(k, v)| (k.clone(), describe(v))).collect();
    assert_eq!(
        entries,
        vec![
            ("nome".to_string(), "\"Ana\"".to_string()),
            ("idade".to_string(), "int 0".to_string()),
            ("data".to_string(), "\"2024-03-05\"".to_string()),
        ]
    );
    let object = build_row_object(&row(&["", "2,5", "NÃO"]), &mapping());
    let entries: Vec<(String, String)> = object.entries.iter().map(|(k, v)| (k.clone(), describe(v))).collect();
    assert_eq!(
        entries,
        vec![
            ("nome".to_string(), "null".to_string()),
            ("idade".to_string(), "num 2.5".to_string()),
            ("ativo".to_string(), "false".to_string()),
            ("data".to_string(), "\"\"".to_string()),
        ]
    );
}

#[test]
fn export_holds_the_objects_of_valid_rows() {
    let tolerant = export_rows(&table(), &mapping(), &ErrorPolicy::Tolerant);
    assert_eq!(tolerant.rows.len(), 2);
    assert_eq!(tolerant.report.valid_rows, 2);
    assert_eq!(tolerant.report.errors.len(), 3);
    let last: Vec<String> = tolerant.rows[1].entries.iter().map(|(_, v)| describe(v)).collect();
    assert_eq!(last, vec!["\"Ivo\"", "num 4.5", "\"2023-03-15\""]);
    let strict = export_rows(&table(), &mapping(), &ErrorPolicy::Strict);
    assert_eq!(strict.rows.len(), 1);
    assert!(strict.report.stopped_early);
    let validated = validate_rows(&table(), &mapping(), &ErrorPolicy::Strict);
    assert_eq!(strict.report.total_rows, validated.total_rows);
    assert_eq!(strict.report.errors.len(), validated.errors.len());
}

#[test]
fn export_row_by_row() {
    let mut acc = ExportResult::new();
    let stop = record_export_row(&mut acc, 1, &row(&["Rui", "x"]), &mapping(), &ErrorPolicy::Strict);
    assert!(stop);
    assert_eq!(acc.rows.len(), 0);
    assert!(acc.report.stopped_early);
}

#[test]
fn repeated_header_keeps_both_insertions_in_order() {
    let cols = vec![
        column("x", ColumnType::Text, EmptyCellStrategy::Null),
        column("x", ColumnType::Number, EmptyCellStrategy::Omit),
    ];
    let object = build_row_object(&row(&["a", "2"]), &cols);
    let entries: Vec<String> = object.entries.iter().map(|(k, v)| format!("{}={}", k, describe(v))).collect();
    assert_eq!(entries, vec!["x=\"a\"", "x=num 2"]);
}

#[test]
fn text_columns_never_fail() {
    let cols = vec![
        column("a", ColumnType::Text, EmptyCellStrategy::Omit),
        column("b", ColumnType::Text, EmptyCellStrategy::Omit),
    ];
    assert!(validate_row(1, &row(&["1e400", "não é número", "extra"]), &cols).is_empty());
}

#[test]
fn export_leaves_out_rows_with_serial_days_beyond_the_calendar() {
    let mut acc = ExportResult::new();
    let stop = record_export_row(&mut acc, 1, &row(&["Ana", "1", "sim", "-1e300"]), &mapping(), &ErrorPolicy::Tolerant);
    assert!(!stop);
    assert_eq!(acc.report.invalid_rows, 1);
    assert!(acc.rows.is_empty());
    let result = export_rows(&vec![row(&["Ana", "1", "sim", "1e12"])], &mapping(), &ErrorPolicy::Tolerant);
    assert!(result.rows.is_empty());
    assert_eq!(result.report.invalid_rows, 1);
}

#[test]
fn report_errors_come_in_row_order() {
    for policy in [ErrorPolicy::Tolerant, ErrorPolicy::Strict] {
        let report = validate_rows(&table(), &mapping(), &policy);
        assert!(report.invalid_rows <= report.errors.len());
        assert!(report.errors.iter().all(|e| 1 <= e.row_number && e.row_number <= report.total_rows));
        assert!(report.errors.windows(2).all(|w| w[0].row_number <= w[1].row_number));
        assert_eq!(report.stopped_early, matches!(policy, ErrorPolicy::Strict) && report.invalid_rows == 1);
    }
}
