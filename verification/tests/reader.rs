use rcsv::domain::config::CsvConfig;
use rcsv::domain::data::{CsvData, Record};
use rcsv::services::reader::{CsvReader, CsvReaderService, ReadError};

fn record(fields: &[&str]) -> Record {
    Record::from_fields(fields.iter().map(|field| field.to_string()).collect())
}

fn config(delimiter: u8, has_headers: bool, max_rows: usize) -> CsvConfig {
    CsvConfig { delimiter, has_headers, max_rows }
}

fn read(text: &[u8], config: &CsvConfig) -> Result<CsvData, ReadError> {
    CsvReaderService::new().read(text, config)
}

#[test]
fn read_header_and_one_row() {
    let data = read(b"a,b,c\n1,22,333\n", &config(b',', true, 100)).unwrap();
    assert_eq!(data.headers, Some(record(&["a", "b", "c"])));
    assert_eq!(data.rows, vec![record(&["1", "22", "333"])]);
    assert_eq!(data.column_widths, vec![1, 2, 3]);
}

#[test]
fn read_names_and_ages() {
    let data = read(b"name,age\nAlice,30\nBob,7", &config(b',', true, 100)).unwrap();
    assert_eq!(data.headers, Some(record(&["name", "age"])));
    assert_eq!(data.rows, vec![record(&["Alice", "30"]), record(&["Bob", "7"])]);
    assert_eq!(data.column_widths, vec![5, 3]);
}

#[test]
fn read_without_header_takes_the_first_line_as_a_row() {
    let data = read(b"a,b,c\n1,22,333\n", &config(b',', false, 100)).unwrap();
    assert_eq!(data.headers, None);
    assert_eq!(data.rows, vec![record(&["a", "b", "c"]), record(&["1", "22", "333"])]);
    assert_eq!(data.column_widths, vec![1, 2, 3]);
}

#[test]
fn read_stops_at_the_row_limit() {
    let text = b"n\n1\n2\n3\n4\n5\n";
    for limit in 1usize..5 {
        let data = read(text, &config(b',', true, limit)).unwrap();
        assert_eq!(data.rows.len(), limit);
        let expected: Vec<Record> =
            (1..=limit).map(|n| record(&[n.to_string().as_str()])).collect();
        assert_eq!(data.rows, expected);
    }
    let data = read(text, &config(b',', true, 5)).unwrap();
    assert_eq!(data.rows.len(), 5);
    let data = read(text, &config(b',', true, 6)).unwrap();
    assert_eq!(data.rows.len(), 5);
}

#[test]
fn read_measures_only_the_rows_it_keeps() {
    let data = read(b"h\na\nbbbbbbbb\n", &config(b',', true, 1)).unwrap();
    assert_eq!(data.rows, vec![record(&["a"])]);
    assert_eq!(data.column_widths, vec![1]);
}

#[test]
fn read_keeps_a_row_longer_than_the_header() {
    let data = read(b"a,b\n1,2,3\n", &config(b',', true, 100)).unwrap();
    assert_eq!(data.headers, Some(record(&["a", "b"])));
    assert_eq!(data.rows, vec![record(&["1", "2", "3"])]);
    assert_eq!(data.column_widths, vec![1, 1]);
}

#[test]
fn read_keeps_rows_of_any_length() {
    let data = read(b"a,b\n1,2\n3\n4,5\n6,7,8\n9,10\n", &config(b',', true, 100)).unwrap();
    assert_eq!(
        data.rows,
        vec![
            record(&["1", "2"]),
            record(&["3"]),
            record(&["4", "5"]),
            record(&["6", "7", "8"]),
            record(&["9", "10"]),
        ]
    );
    assert_eq!(data.column_widths, vec![1, 2]);
}

#[test]
fn read_does_not_count_skipped_rows_towards_the_limit() {
    let data = read(b"a,b\n1,2\n\xff,x\n4,5\n6,7\n", &config(b',', true, 2)).unwrap();
    assert_eq!(data.rows, vec![record(&["1", "2"]), record(&["4", "5"])]);
    let data = read(b"a,b\n\xff\n\xfe\n1,2\n", &config(b',', true, 2)).unwrap();
    assert_eq!(data.rows, vec![record(&["1", "2"])]);
}

#[test]
fn read_skips_rows_that_are_not_utf8() {
    let data = read(b"a\nok\n\xff\xfe\nfine\n", &config(b',', true, 100)).unwrap();
    assert_eq!(data.rows, vec![record(&["ok"]), record(&["fine"])]);
}

#[test]
fn read_fails_on_an_empty_file_when_a_header_is_expected() {
    assert_eq!(read(b"", &config(b',', true, 100)).unwrap_err(), ReadError::HeaderParse);
    assert_eq!(read(b"\n\n", &config(b',', true, 100)).unwrap_err(), ReadError::HeaderParse);
}

#[test]
fn read_fails_on_a_header_that_is_not_utf8() {
    assert_eq!(read(b"\xff,b\n1,2\n", &config(b',', true, 100)).unwrap_err(), ReadError::HeaderParse);
}

#[test]
fn read_of_an_empty_file_without_header_has_no_columns() {
    let data = read(b"", &config(b',', false, 100)).unwrap();
    assert_eq!(data.headers, None);
    assert!(data.rows.is_empty());
    assert!(data.column_widths.is_empty());
}

#[test]
fn read_of_a_header_alone_is_not_an_error() {
    let data = read(b"name,age\n", &config(b',', true, 100)).unwrap();
    assert_eq!(data.headers, Some(record(&["name", "age"])));
    assert!(data.rows.is_empty());
    assert_eq!(data.column_widths, vec![4, 3]);
}

#[test]
fn read_splits_at_the_configured_delimiter() {
    let data = read(b"a;b\n1,5;2\n", &config(b';', true, 100)).unwrap();
    assert_eq!(data.headers, Some(record(&["a", "b"])));
    assert_eq!(data.rows, vec![record(&["1,5", "2"])]);
    let data = read(b"a\tb\n1\t2\n", &config(b'\t', true, 100)).unwrap();
    assert_eq!(data.rows, vec![record(&["1", "2"])]);
    let data = read(b"a;b\n1;2\n", &config(b',', true, 100)).unwrap();
    assert_eq!(data.headers, Some(record(&["a;b"])));
    assert_eq!(data.rows, vec![record(&["1;2"])]);
}

#[test]
fn read_understands_quoted_fields() {
    let data = read(b"a,b\n\"x,y\",\"say \"\"hi\"\"\"\n", &config(b',', true, 100)).unwrap();
    assert_eq!(data.rows, vec![record(&["x,y", "say \"hi\""])]);
    assert_eq!(data.column_widths, vec![3, 8]);
}

#[test]
fn read_with_a_limit_of_zero_keeps_no_row() {
    let data = read(b"a\n1\n2\n", &config(b',', true, 0)).unwrap();
    assert!(data.rows.is_empty());
    assert_eq!(data.column_widths, vec![1]);
}

#[test]
fn assemble_builds_the_table_from_parse_results() {
    let reader = CsvReaderService::new();
    let records = vec![Some(record(&["1", "22"])), None, Some(record(&["333", "4"])), Some(record(&["5", "6"]))];
    let data = reader.assemble(Some(record(&["a", "b"])), records, &config(b',', true, 2)).unwrap();
    assert_eq!(data.headers, Some(record(&["a", "b"])));
    assert_eq!(data.rows, vec![record(&["1", "22"]), record(&["333", "4"])]);
    assert_eq!(data.column_widths, vec![3, 2]);
}

#[test]
fn assemble_ignores_the_header_when_none_is_expected() {
    let reader = CsvReaderService::new();
    let data = reader
        .assemble(Some(record(&["a", "b"])), vec![Some(record(&["1"]))], &config(b',', false, 5))
        .unwrap();
    assert_eq!(data.headers, None);
    assert_eq!(data.rows, vec![record(&["1"])]);
    assert_eq!(data.column_widths, vec![1]);
}

#[test]
fn assemble_fails_without_a_header_record() {
    let reader = CsvReaderService::new();
    let rows = vec![Some(record(&["1"]))];
    assert_eq!(reader.assemble(None, rows.clone(), &config(b',', true, 5)).unwrap_err(), ReadError::HeaderParse);
    assert_eq!(
        reader.assemble(Some(Record::new()), rows, &config(b',', true, 5)).unwrap_err(),
        ReadError::HeaderParse
    );
}

#[test]
fn read_headers_sets_the_header_or_leaves_the_table() {
    let reader = CsvReaderService::new();
    let mut data = CsvData::new();
    assert_eq!(reader.read_headers(None, &mut data), Err(ReadError::HeaderParse));
    assert_eq!(data.headers, None);
    assert_eq!(reader.read_headers(Some(Record::new()), &mut data), Err(ReadError::HeaderParse));
    assert_eq!(data.headers, None);
    assert_eq!(reader.read_headers(Some(record(&["h"])), &mut data), Ok(()));
    assert_eq!(data.headers, Some(record(&["h"])));
}

#[test]
fn read_rows_appends_and_counts_what_parsed() {
    let reader = CsvReaderService::new();
    let mut data = CsvData::new();
    data.add_row(record(&["kept"]));
    let records = vec![None, Some(record(&["1"])), None, Some(record(&["2"])), Some(record(&["3"]))];
    assert_eq!(reader.read_rows(records.clone(), &mut data, 2), 2);
    assert_eq!(data.rows, vec![record(&["kept"]), record(&["1"]), record(&["2"])]);
    let mut data = CsvData::new();
    assert_eq!(reader.read_rows(records.clone(), &mut data, 10), 3);
    assert_eq!(data.rows, vec![record(&["1"]), record(&["2"]), record(&["3"])]);
    let mut data = CsvData::new();
    assert_eq!(reader.read_rows(records, &mut data, 0), 0);
    assert!(data.rows.is_empty());
    assert_eq!(reader.read_rows(Vec::new(), &mut data, 5), 0);
}

#[test]
fn read_error_has_a_text() {
    assert_eq!(ReadError::HeaderParse.to_string(), "Failed to read headers: no header line could be read");
}
