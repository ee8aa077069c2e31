use colored::control::set_override;
use rcsv::app::{AppError, CsvViewerApp};
use rcsv::domain::config::CsvConfig;
use rcsv::domain::data::{CsvData, Record};
use rcsv::services::formatter::{CsvFormatter, TableFormatter};
use rcsv::services::reader::{CsvReader, CsvReaderService, ReadError};

fn record(fields: &[&str]) -> Record {
    Record::from_fields(fields.iter().map(|field| field.to_string()).collect())
}

fn viewer() -> CsvViewerApp<CsvReaderService, TableFormatter> {
    CsvViewerApp::new(Box::new(CsvReaderService::new()), Box::new(TableFormatter::new()))
}

fn config(has_headers: bool, max_rows: usize) -> CsvConfig {
    CsvConfig::new(',', has_headers, max_rows).unwrap()
}

struct FixedReader;

impl CsvReader for FixedReader {
    fn read(&self, _bytes: &[u8], _config: &CsvConfig) -> Result<CsvData, ReadError> {
        let mut data = CsvData::new();
        data.add_row(record(&["fixed"]));
        data.compute_column_widths();
        Ok(data)
    }
}

struct CountingFormatter;

impl CsvFormatter for CountingFormatter {
    fn format(&self, data: &CsvData) -> Option<String> {
        Some(format!("{} rows", data.rows.len()))
    }
}

#[test]
fn run_renders_names_and_ages() {
    set_override(false);
    let out = viewer().run(b"name,age\nAlice,30\nBob,7", &config(true, 100)).unwrap();
    let expected = "\n\
┌───────┬─────┐
│ name  │ age │
├───────┼─────┤
│ Alice │ 30  │
│ Bob   │ 7   │
└───────┴─────┘\n";
    assert_eq!(out, Some(String::from(expected)));
}

#[test]
fn run_renders_a_header_alone() {
    set_override(false);
    let out = viewer().run(b"name,age\n", &config(true, 100)).unwrap();
    let expected = "\n\
┌──────┬─────┐
│ name │ age │
├──────┼─────┤
└──────┴─────┘\n";
    assert_eq!(out, Some(String::from(expected)));
}

#[test]
fn run_truncates_at_the_row_limit() {
    set_override(false);
    let out = viewer().run(b"n\n1\n2\n3\n", &config(true, 2)).unwrap();
    assert_eq!(out, Some(String::from("\n┌───┐\n│ n │\n├───┤\n│ 1 │\n│ 2 │\n└───┘\n")));
}

#[test]
fn run_fails_on_an_empty_file_with_header() {
    assert_eq!(viewer().run(b"", &config(true, 100)), Err(AppError::Read(ReadError::HeaderParse)));
}

#[test]
fn run_fails_on_an_empty_file_without_header() {
    assert_eq!(viewer().run(b"", &config(false, 100)), Err(AppError::EmptyFile));
}

#[test]
fn run_without_header_renders_every_line_as_a_row() {
    set_override(false);
    let out = viewer().run(b"a,b\n1,2\n", &config(false, 100)).unwrap();
    assert_eq!(out, Some(String::from("\n┌───┬───┐\n│ a │ b │\n│ 1 │ 2 │\n└───┴───┘\n")));
}

#[test]
fn run_works_with_any_reader_and_formatter() {
    let app = CsvViewerApp::new(Box::new(FixedReader), Box::new(CountingFormatter));
    assert_eq!(app.run(b"whatever", &config(true, 1)), Ok(Some(String::from("\n1 rows\n"))));
}

#[test]
fn load_data_passes_the_failure_on() {
    let app = viewer();
    assert_eq!(
        app.load_data(b"", &config(true, 5)).unwrap_err(),
        AppError::Read(ReadError::HeaderParse)
    );
    let data = app.load_data(b"a\n1\n", &config(true, 5)).unwrap();
    assert_eq!(data.rows, vec![record(&["1"])]);
}

#[test]
fn handle_empty_tells_a_blank_table_from_a_header_alone() {
    let app = viewer();
    let mut data = CsvData::new();
    assert_eq!(app.handle_empty(&data), Err(AppError::EmptyFile));
    data.set_headers(record(&["h"]));
    assert_eq!(app.handle_empty(&data), Ok(()));
    data.add_row(record(&["1"]));
    assert_eq!(app.handle_empty(&data), Ok(()));
    let mut rows_only = CsvData::new();
    rows_only.add_row(record(&["1"]));
    assert_eq!(app.handle_empty(&rows_only), Ok(()));
}

#[test]
fn display_frames_the_table_with_line_feeds() {
    set_override(false);
    let app = viewer();
    let mut data = CsvData::new();
    data.add_row(record(&["x"]));
    data.compute_column_widths();
    assert_eq!(app.display(&data), Some(String::from("\n┌───┐\n│ x │\n└───┘\n")));
    assert_eq!(app.display(&CsvData::new()), None);
}

#[test]
fn app_error_has_a_text() {
    assert_eq!(AppError::EmptyFile.to_string(), "CSV file contains no data");
    assert_eq!(
        AppError::Read(ReadError::HeaderParse).to_string(),
        "Failed to read headers: no header line could be read"
    );
}
