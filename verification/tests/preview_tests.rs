use conversor_json::preview::{classify_extension, file_kind_for_path, sheet_preview, FileKind, FilePreview, PREVIEW_SAMPLE_SIZE};

fn strings(n: usize, prefix: &str) -> Vec<String> {
    (0..n).map(|i| format!("{}{}", prefix, i)).collect()
}

#[test]
fn extensions_choose_the_reader() {
    assert_eq!(classify_extension("XLSX"), Ok(FileKind::Spreadsheet));
    assert_eq!(classify_extension("xls"), Ok(FileKind::Spreadsheet));
    assert_eq!(classify_extension("Csv"), Ok(FileKind::Csv));
    assert_eq!(classify_extension("TXT"), Err("Formato de ficheiro não suportado: .txt".to_string()));
    assert_eq!(classify_extension(""), Err("Formato de ficheiro não suportado: .".to_string()));
}

#[test]
fn paths_choose_the_reader() {
    assert_eq!(file_kind_for_path("/tmp/dados.CSV"), Ok(FileKind::Csv));
    assert_eq!(file_kind_for_path("folha.final.xlsx"), Ok(FileKind::Spreadsheet));
    assert_eq!(file_kind_for_path("semextensao"), Err("Formato de ficheiro não suportado: .".to_string()));
    assert_eq!(file_kind_for_path(".csv"), Err("Formato de ficheiro não suportado: .".to_string()));
    assert_eq!(file_kind_for_path("notas.PDF"), Err("Formato de ficheiro não suportado: .pdf".to_string()));
    assert_eq!(file_kind_for_path("Dados.TXT"), Err("Formato de ficheiro não suportado: .txt".to_string()));
    assert_eq!(file_kind_for_path("LEIAME"), Err("Formato de ficheiro não suportado: .".to_string()));
    assert_eq!(file_kind_for_path("DADOS.XLS"), Ok(FileKind::Spreadsheet));
    assert_eq!(file_kind_for_path("/home/ana/dados.csv"), Ok(FileKind::Csv));
    assert_eq!(file_kind_for_path("/home/ana.v2/relatorio"), Err("Formato de ficheiro não suportado: .".to_string()));
    assert_eq!(file_kind_for_path("pasta/.csv"), Err("Formato de ficheiro não suportado: .".to_string()));
}

#[test]
fn sheet_preview_takes_header_and_sample() {
    let rows: Vec<Vec<String>> = (0..25).map(|i| strings(3, &format!("r{}c", i))).collect();
    let p = sheet_preview(rows, 100).unwrap();
    assert_eq!(p.headers, strings(3, "r0c"));
    assert_eq!(p.sample_rows.len(), PREVIEW_SAMPLE_SIZE);
    assert_eq!(p.sample_rows[0], strings(3, "r1c"));
    assert_eq!(p.total_rows_estimate, 100);
    let small = sheet_preview(vec![strings(2, "h")], 1).unwrap();
    assert!(small.sample_rows.is_empty());
}

#[test]
fn empty_sheet_is_an_error() {
    assert_eq!(sheet_preview(Vec::new(), 0).err(), Some("O ficheiro Excel está vazio.".to_string()));
}

#[test]
fn csv_preview_counts_every_record_and_keeps_twenty() {
    assert_eq!(FilePreview::from_csv_headers(Vec::new()).err(), Some("O ficheiro CSV está vazio.".to_string()));
    let mut p = FilePreview::from_csv_headers(strings(2, "h")).unwrap();
    let mut read = 0;
    for i in 0..25 {
        read += 1;
        if p.add_csv_record(strings(2, &format!("v{}_", i))) {
            break;
        }
    }
    assert_eq!(read, 20);
    assert_eq!(p.total_rows_estimate, 20);
    assert_eq!(p.sample_rows.len(), 20);
    assert_eq!(p.sample_rows[19], strings(2, "v19_"));
    assert_eq!(p.headers, strings(2, "h"));
}
