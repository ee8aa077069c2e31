use colored::control::set_override;
use rcsv::domain::data::{CsvData, Record};
use rcsv::services::formatter::{CsvFormatter, TableFormatter};

fn record(fields: &[&str]) -> Record {
    Record::from_fields(fields.iter().map(|field| field.to_string()).collect())
}

#[test]
fn colored_header_cell_is_bold_bright_cyan() {
    set_override(true);
    let formatter = TableFormatter::new();
    assert_eq!(formatter.style_cell(String::from("name "), true, false), "\x1b[1;96mname \x1b[0m");
    assert_eq!(formatter.style_cell(String::from("name "), true, true), "\x1b[1;96mname \x1b[0m");
}

#[test]
fn colored_row_cells_alternate_between_white_and_bright_white() {
    set_override(true);
    let formatter = TableFormatter::new();
    assert_eq!(formatter.style_cell(String::from("Alice"), false, false), "\x1b[37mAlice\x1b[0m");
    assert_eq!(formatter.style_cell(String::from("Bob  "), false, true), "\x1b[97mBob  \x1b[0m");
    assert_eq!(formatter.style_cell(String::new(), false, false), "\x1b[37m\x1b[0m");
}

#[test]
fn colored_cell_with_an_escape_keeps_its_frame() {
    set_override(true);
    let formatter = TableFormatter::new();
    let cell = formatter.style_cell(String::from("a\x1b[0mb"), false, true);
    assert!(cell.starts_with("\x1b[97m"));
    assert!(cell.ends_with("\x1b[0m"));
    assert!(cell.len() >= "\x1b[97m".len() + "\x1b[0m".len());
}

#[test]
fn colored_row_paints_each_padded_cell() {
    set_override(true);
    let formatter = TableFormatter::new();
    assert_eq!(
        formatter.format_row(&record(&["Bob", "7"]), &[5, 3], false, true),
        "│ \x1b[97mBob  \x1b[0m │ \x1b[97m7  \x1b[0m │"
    );
    assert_eq!(
        formatter.format_row(&record(&["name", "age"]), &[5, 3], true, false),
        "│ \x1b[1;96mname \x1b[0m │ \x1b[1;96mage\x1b[0m │"
    );
}

#[test]
fn colored_table_of_names_and_ages() {
    set_override(true);
    let mut data = CsvData::new();
    data.set_headers(record(&["name", "age"]));
    data.add_row(record(&["Alice", "30"]));
    data.add_row(record(&["Bob", "7"]));
    data.add_row(record(&["Cy", "41"]));
    data.compute_column_widths();
    assert_eq!(data.column_widths, vec![5, 3]);
    let expected = [
        "┌───────┬─────┐",
        "│ \x1b[1;96mname \x1b[0m │ \x1b[1;96mage\x1b[0m │",
        "├───────┼─────┤",
        "│ \x1b[37mAlice\x1b[0m │ \x1b[37m30 \x1b[0m │",
        "│ \x1b[97mBob  \x1b[0m │ \x1b[97m7  \x1b[0m │",
        "│ \x1b[37mCy   \x1b[0m │ \x1b[37m41 \x1b[0m │",
        "└───────┴─────┘",
    ]
    .join("\n");
    assert_eq!(TableFormatter::new().format(&data), Some(expected));
}
