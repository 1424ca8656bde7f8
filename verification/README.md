# conversor_json

Converts spreadsheet (`.xlsx`, `.xls`) and CSV rows into JSON objects, after
validating every cell against the type its column is forced to (text, number,
boolean, date) under a strict (stop at the first bad row) or tolerant (collect
every error) policy. Empty cells follow a per-column strategy: omit the key,
write `null`, or write the type's default.

Layout:

- `src/` — the library, verified with Verus:
  - `model.rs` — columns, policies, cells, parsed values, reports;
  - `text.rs` — string helpers and the float-literal grammar;
  - `dates.rs` — serial, ISO and day-first dates (through chrono), `AAAA-MM-DD` output;
  - `parsing.rs` — reading one cell as its column's type;
  - `validation.rs` — row validation, the running report, whole tables;
  - `export.rs` — the JSON objects of valid rows;
  - `preview.rs` — choosing a reader by extension, file previews;
  - `laws.rs` — properties of validation and export over whole tables.
- `tests/` — tests of the library on concrete values.
- `app/` — the Tauri shell: file reading (calamine, csv), the save dialog,
  writing the JSON (serde_json), and the serde copies of the library's types.
