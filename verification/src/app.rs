//! One run of the viewer: read, decide whether there is anything to show,
//! render.

use crate::domain::config::CsvConfig;
use crate::domain::data::{CsvData, Table};
use crate::bridge::parse::{csv_header, csv_records};
use crate::services::formatter::{is_rendering, text_view, CsvFormatter, TableFormatter};
use crate::services::reader::{
    is_header, outcome_view, parsed_rows, read_outcome, CsvReader, CsvReaderService, ReadError,
};
use vstd::prelude::*;

verus! {

/// Why a run produced no table.
#[derive(Debug, Clone, Copy, PartialEq, Eq, Structural)]
pub enum AppError {
    /// Reading failed.
    Read(ReadError),
    /// There is neither a header nor a single row.
    EmptyFile,
}

impl AppError {
    /// The text shown to the user.
    pub fn to_string(&self) -> (out: String)
        ensures
            self is EmptyFile ==> out@ == "CSV file contains no data"@,
            self matches AppError::Read(_) ==> out@
                == "Failed to read headers: no header line could be read"@,
    {
        match self {
            AppError::Read(error) => error.to_string(),
            AppError::EmptyFile => String::from_str("CSV file contains no data"),
        }
    }
}

/// Whether a table holds nothing at all: no header and no row.
pub open spec fn is_blank(table: Table) -> bool {
    table.rows.len() == 0 && table.headers is None
}

/// The text that is printed for a rendered table: the table between two
/// line feeds, so that a blank line stands above and below it.
pub open spec fn framed(table: Option<Seq<char>>) -> Option<Seq<char>> {
    match table {
        Some(text) => Some(seq!['\n'] + text + seq!['\n']),
        None => None,
    }
}

/// What a run returns, as mathematical values.
pub open spec fn run_view(out: Result<Option<String>, AppError>) -> Result<
    Option<Seq<char>>,
    AppError,
> {
    match out {
        Ok(text) => Ok(text_view(text)),
        Err(error) => Err(error),
    }
}

/// The viewer: a reader and a formatter, run one after the other.
pub struct CsvViewerApp<R: CsvReader, F: CsvFormatter> {
    pub reader: Box<R>,
    pub formatter: Box<F>,
}

impl<R: CsvReader, F: CsvFormatter> CsvViewerApp<R, F> {
    pub fn new(reader: Box<R>, formatter: Box<F>) -> (app: Self)
        ensures
            app.reader == reader,
            app.formatter == formatter,
    {
        Self { reader, formatter }
    }

    /// Whether `out` is what showing `table` gives: a rendering by the
    /// formatter, framed, or nothing where the formatter returns nothing.
    pub open spec fn shows(&self, table: Table, out: Option<Seq<char>>) -> bool {
        exists|text: Option<Seq<char>>| #[trigger]
            self.formatter.renders(table, text) && out == framed(text)
    }

    /// Whether `out` is how a run ends after the reader returned `read`: a
    /// failed read is passed on, a blank table is an error, any other table
    /// is shown.
    pub open spec fn concludes(
        &self,
        read: Result<Table, ReadError>,
        out: Result<Option<Seq<char>>, AppError>,
    ) -> bool {
        match read {
            Err(error) => out == Err::<Option<Seq<char>>, AppError>(AppError::Read(error)),
            Ok(table) => if is_blank(table) {
                out == Err::<Option<Seq<char>>, AppError>(AppError::EmptyFile)
            } else {
                out matches Ok(text) && self.shows(table, text)
            },
        }
    }

    /// Whether `out` is an outcome of running on `bytes` under `config`.
    pub open spec fn is_outcome(
        &self,
        bytes: Seq<u8>,
        config: CsvConfig,
        out: Result<Option<Seq<char>>, AppError>,
    ) -> bool {
        exists|read: Result<Table, ReadError>| #[trigger]
            self.reader.reads(bytes, config, read) && self.concludes(read, out)
    }

    /// Reads, checks that there is something to show, and renders. Returns
    /// the text to print, or nothing where the formatter has nothing to
    /// draw.
    pub fn run(&self, bytes: &[u8], config: &CsvConfig) -> (out: Result<Option<String>, AppError>)
        ensures
            self.is_outcome(bytes@, *config, run_view(out)),
    {
        let data = match self.load_data(bytes, config) {
            Ok(data) => data,
            Err(error) => {
                return Err(error);
            },
        };
        match self.handle_empty(&data) {
            Ok(()) => {},
            Err(error) => {
                return Err(error);
            },
        }
        let text = self.display(&data);
        Ok(text)
    }

    /// Asks the reader for the table and passes a failure on.
    pub fn load_data(&self, bytes: &[u8], config: &CsvConfig) -> (out: Result<CsvData, AppError>)
        ensures
            match out {
                Ok(data) => self.reader.reads(bytes@, *config, Ok(data@)),
                Err(error) => error matches AppError::Read(inner) && self.reader.reads(
                    bytes@,
                    *config,
                    Err(inner),
                ),
            },
    {
        match self.reader.read(bytes, config) {
            Ok(data) => Ok(data),
            Err(error) => Err(AppError::Read(error)),
        }
    }

    /// Decides whether there is anything to show. A table with a header and
    /// no rows is shown; one with neither is an error.
    pub fn handle_empty(&self, data: &CsvData) -> (out: Result<(), AppError>)
        ensures
            out is Err <==> is_blank(data@),
            out matches Err(error) ==> error == AppError::EmptyFile,
    {
        if data.has_data() {
            return Ok(());
        }
        match &data.headers {
            Some(_) => Ok(()),
            None => Err(AppError::EmptyFile),
        }
    }

    /// Renders the table and frames it for printing.
    pub fn display(&self, data: &CsvData) -> (out: Option<String>)
        ensures
            self.shows(data@, text_view(out)),
    {
        match self.formatter.format(data) {
            Some(table) => {
                proof {
                    reveal_strlit("\n");
                }
                let mut text = String::from_str("\n");
                text.append(table.as_str());
                text.append("\n");
                assert(text_view(Some(text)) == framed(Some(table@)));
                Some(text)
            },
            None => {
                None
            },
        }
    }
}

/// With the reader that parses with `csv` and the formatter that draws the
/// box, a run ends as [`CsvViewerApp::concludes`] says of the one table that
/// the reader builds from what `csv` returns.
pub proof fn lemma_run_of_the_viewer(
    app: CsvViewerApp<CsvReaderService, TableFormatter>,
    bytes: Seq<u8>,
    config: CsvConfig,
    out: Result<Option<Seq<char>>, AppError>,
)
    ensures
        app.is_outcome(bytes, config, out) <==> app.concludes(
            read_outcome(
                csv_header(bytes, config.delimiter),
                csv_records(bytes, config.delimiter, config.has_headers),
                config,
            ),
            out,
        ),
        forall|table: Table, text: Option<Seq<char>>|
            app.shows(table, text) <==> exists|drawn: Option<Seq<char>>| #[trigger]
                is_rendering(table, drawn) && text == framed(drawn),
{
    let read = read_outcome(
        csv_header(bytes, config.delimiter),
        csv_records(bytes, config.delimiter, config.has_headers),
        config,
    );
    if app.concludes(read, out) {
        assert(app.reader.reads(bytes, config, read));
    }
    assert forall|table: Table, text: Option<Seq<char>>|
        app.shows(table, text) <==> exists|drawn: Option<Seq<char>>| #[trigger]
            is_rendering(table, drawn) && text == framed(drawn) by {
        if app.shows(table, text) {
            let drawn = choose|drawn: Option<Seq<char>>| #[trigger]
                app.formatter.renders(table, drawn) && text == framed(drawn);
        }
        if exists|drawn: Option<Seq<char>>| #[trigger]
            is_rendering(table, drawn) && text == framed(drawn) {
            let drawn = choose|drawn: Option<Seq<char>>| #[trigger]
                is_rendering(table, drawn) && text == framed(drawn);
            assert(app.formatter.renders(table, drawn));
        }
    }
}

/// Input with a header line and no data row is read without error, is not
/// blank, and renders as content: one column per header field.
pub proof fn lemma_header_only_input(
    header: Option<Seq<Seq<char>>>,
    records: Seq<Option<Seq<Seq<char>>>>,
    config: CsvConfig,
    drawn: Option<Seq<char>>,
)
    requires
        config.has_headers,
        is_header(header),
        parsed_rows(records).len() == 0,
        read_outcome(header, records, config) matches Ok(table) ==> is_rendering(table, drawn),
    ensures
        read_outcome(header, records, config) matches Ok(table) && {
            &&& table.headers == header
            &&& table.rows.len() == 0
            &&& table.column_widths.len() == header->0.len()
            &&& !is_blank(table)
            &&& drawn is Some
        },
{
}

/// Input without any record: where a header is expected, reading fails for
/// want of one; where none is expected, the table is blank and has no
/// columns, so rendering it gives nothing.
pub proof fn lemma_empty_input(
    header: Option<Seq<Seq<char>>>,
    records: Seq<Option<Seq<Seq<char>>>>,
    config: CsvConfig,
    drawn: Option<Seq<char>>,
)
    requires
        records.len() == 0,
        !is_header(header),
        read_outcome(header, records, config) matches Ok(table) ==> is_rendering(table, drawn),
    ensures
        config.has_headers ==> read_outcome(header, records, config) == Err::<Table, ReadError>(
            ReadError::HeaderParse,
        ),
        !config.has_headers ==> (read_outcome(header, records, config) matches Ok(table) && {
            &&& is_blank(table)
            &&& table.column_widths.len() == 0
            &&& drawn is None
        }),
{
}

} // verus!
