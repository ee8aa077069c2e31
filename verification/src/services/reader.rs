//! Reading delimited text into a table under a configuration.

use crate::bridge::parse::{csv_header, csv_records, parse_header, parse_records, parsed_views};
use crate::domain::config::CsvConfig;
use crate::domain::data::{header_view, CsvData, Record, Table};
use vstd::prelude::*;

verus! {

/// Why reading failed.
#[derive(Debug, Clone, Copy, PartialEq, Eq, Structural)]
pub enum ReadError {
    /// A header was expected and no line could be read as one.
    HeaderParse,
}

impl ReadError {
    /// The text shown to the user.
    pub fn to_string(&self) -> (out: String)
        ensures
            out@ == "Failed to read headers: no header line could be read"@,
    {
        String::from_str("Failed to read headers: no header line could be read")
    }
}

/// The records that parsed, in order.
pub open spec fn parsed_rows(records: Seq<Option<Seq<Seq<char>>>>) -> Seq<Seq<Seq<char>>>
    decreases records.len(),
{
    if records.len() == 0 {
        Seq::empty()
    } else {
        match records.last() {
            Some(row) => parsed_rows(records.drop_last()).push(row),
            None => parsed_rows(records.drop_last()),
        }
    }
}

/// The rows that are kept: the first `max_rows` records that parsed, or all
/// of them where there are fewer.
pub open spec fn kept_rows(records: Seq<Option<Seq<Seq<char>>>>, max_rows: nat) -> Seq<
    Seq<Seq<char>>,
> {
    if parsed_rows(records).len() <= max_rows {
        parsed_rows(records)
    } else {
        parsed_rows(records).take(max_rows as int)
    }
}

/// Whether `header` can serve as a header record: it was read and has at
/// least one field.
pub open spec fn is_header(header: Option<Seq<Seq<char>>>) -> bool {
    header matches Some(fields) && fields.len() > 0
}

/// The table that a header and a list of parse results make under `config`,
/// or the failure.
pub open spec fn read_outcome(
    header: Option<Seq<Seq<char>>>,
    records: Seq<Option<Seq<Seq<char>>>>,
    config: CsvConfig,
) -> Result<Table, ReadError> {
    if config.has_headers && !is_header(header) {
        Err(ReadError::HeaderParse)
    } else {
        Ok(
            (Table {
                headers: if config.has_headers {
                    header
                } else {
                    None
                },
                rows: kept_rows(records, config.max_rows as nat),
                column_widths: Seq::empty(),
            }).recomputed(),
        )
    }
}

/// What a read returns, as mathematical values.
pub open spec fn outcome_view(out: Result<CsvData, ReadError>) -> Result<Table, ReadError> {
    match out {
        Ok(data) => Ok(data@),
        Err(error) => Err(error),
    }
}

/// Something that can turn the bytes of a file into a table.
pub trait CsvReader {
    /// Whether `out` is a result that this reader may give for `bytes` under
    /// `config`. A reader that says nothing here may give any.
    open spec fn reads(
        &self,
        bytes: Seq<u8>,
        config: CsvConfig,
        out: Result<Table, ReadError>,
    ) -> bool {
        true
    }

    /// Reads the contents of a file.
    fn read(&self, bytes: &[u8], config: &CsvConfig) -> (out: Result<CsvData, ReadError>)
        ensures
            self.reads(bytes@, *config, outcome_view(out)),
    ;
}

/// The reader that parses with `csv`.
pub struct CsvReaderService;

impl CsvReaderService {
    pub fn new() -> Self {
        Self
    }

    /// Makes `header` the header of `data`, or fails where no line could be
    /// read as a header: where `header` is missing or has no field.
    pub fn read_headers(&self, header: Option<Record>, data: &mut CsvData) -> (out: Result<
        (),
        ReadError,
    >)
        ensures
            out is Ok <==> is_header(header_view(header)),
            out is Ok ==> final(data)@ == (Table {
                headers: header_view(header),
                ..old(data)@
            }),
            out matches Err(error) ==> error == ReadError::HeaderParse && final(data)@ == old(
                data,
            )@,
    {
        match header {
            Some(record) => {
                if record.len() == 0 {
                    Err(ReadError::HeaderParse)
                } else {
                    data.set_headers(record);
                    Ok(())
                }
            },
            None => Err(ReadError::HeaderParse),
        }
    }

    /// Appends to `data` the records that parsed, in order, until `max` of
    /// them were taken, and returns how many that were. A record that did
    /// not parse is passed over and does not count.
    pub fn read_rows(&self, records: Vec<Option<Record>>, data: &mut CsvData, max: usize) -> (count:
        usize)
        ensures
            final(data)@ == (Table {
                rows: old(data)@.rows + kept_rows(parsed_views(records@), max as nat),
                ..old(data)@
            }),
            count == kept_rows(parsed_views(records@), max as nat).len(),
    {
        let ghost all = parsed_views(records@);
        let mut records = records;
        let mut count: usize = 0;
        let mut i: usize = 0;
        while i < records.len() && count < max
            invariant
                i <= records.len(),
                records.len() == all.len(),
                forall|k: int| i <= k < records.len() ==> header_view(records[k]) == all[k],
                count <= max,
                count == parsed_rows(all.take(i as int)).len(),
                data@ == (Table {
                    rows: old(data)@.rows + parsed_rows(all.take(i as int)),
                    ..old(data)@
                }),
            decreases records.len() - i,
        {
            proof {
                assert(all.take(i + 1).drop_last() =~= all.take(i as int));
            }
            let parsed = records[i].take();
            match parsed {
                Some(row) => {
                    data.add_row(row);
                    count += 1;
                },
                None => {},
            }
            i += 1;
        }
        proof {
            let taken = parsed_rows(all.take(i as int));
            lemma_parsed_rows_prefix(all, i as int);
            if i == records.len() {
                assert(all.take(i as int) =~= all);
            }
            assert(taken =~= kept_rows(all, max as nat));
        }
        count
    }

    /// Builds the table from what the parser returned: the header where the
    /// configuration asks for one, the first `max_rows` records that parsed,
    /// and the column widths computed from both.
    pub fn assemble(
        &self,
        header: Option<Record>,
        records: Vec<Option<Record>>,
        config: &CsvConfig,
    ) -> (out: Result<CsvData, ReadError>)
        ensures
            outcome_view(out) == read_outcome(header_view(header), parsed_views(records@), *config),
    {
        let mut data = CsvData::new();
        if config.has_headers {
            match self.read_headers(header, &mut data) {
                Err(error) => {
                    return Err(error);
                },
                Ok(()) => {},
            }
        }
        self.read_rows(records, &mut data, config.max_rows);
        let ghost filled = data@;
        data.compute_column_widths();
        proof {
            let rows = kept_rows(parsed_views(records@), config.max_rows as nat);
            assert(filled.column_widths =~= Seq::<nat>::empty());
            assert(filled == (Table {
                headers: if config.has_headers {
                    header_view(header)
                } else {
                    None
                },
                rows,
                column_widths: Seq::empty(),
            }));
        }
        Ok(data)
    }
}

/// The records that parsed among the first `n` open the list of all that
/// parsed.
pub proof fn lemma_parsed_rows_prefix(records: Seq<Option<Seq<Seq<char>>>>, n: int)
    requires
        0 <= n <= records.len(),
    ensures
        parsed_rows(records.take(n)).len() <= parsed_rows(records).len(),
        parsed_rows(records.take(n)) == parsed_rows(records).take(
            parsed_rows(records.take(n)).len() as int,
        ),
    decreases records.len() - n,
{
    if n == records.len() {
        assert(records.take(n) =~= records);
        assert(parsed_rows(records).take(parsed_rows(records).len() as int) =~= parsed_rows(
            records,
        ));
    } else {
        lemma_parsed_rows_prefix(records, n + 1);
        assert(records.take(n + 1).drop_last() =~= records.take(n));
    }
}

/// Where every record parsed, the rows that parsed are the records
/// themselves.
pub proof fn lemma_all_parsed(records: Seq<Option<Seq<Seq<char>>>>)
    requires
        forall|i: int| 0 <= i < records.len() ==> (#[trigger] records[i]) is Some,
    ensures
        parsed_rows(records).len() == records.len(),
        forall|i: int| 0 <= i < records.len() ==> (#[trigger] records[i]) == Some(
            parsed_rows(records)[i],
        ),
    decreases records.len(),
{
    if records.len() > 0 {
        let front = records.drop_last();
        assert forall|i: int| 0 <= i < front.len() implies (#[trigger] front[i]) is Some by {
        }
        lemma_all_parsed(front);
        assert forall|i: int| 0 <= i < records.len() implies (#[trigger] records[i]) == Some(
            parsed_rows(records)[i],
        ) by {
            if i < front.len() {
                assert(front[i] == records[i]);
            }
        }
    }
}

/// A row limit below the number of records cuts the rows to exactly that
/// many, the first ones that parsed, in file order, provided that many
/// records parsed at all.
pub proof fn lemma_row_limit_truncates(records: Seq<Option<Seq<Seq<char>>>>, max_rows: nat)
    requires
        max_rows < records.len(),
        max_rows <= parsed_rows(records).len(),
    ensures
        kept_rows(records, max_rows).len() == max_rows,
        kept_rows(records, max_rows) == parsed_rows(records).take(max_rows as int),
        forall|i: int|
            0 <= i < max_rows ==> (#[trigger] kept_rows(records, max_rows)[i]) == parsed_rows(
                records,
            )[i],
{
}

/// The rows never outnumber the row limit, and without a limit in the way
/// every record that parsed is kept.
pub proof fn lemma_kept_rows_bounded(records: Seq<Option<Seq<Seq<char>>>>, max_rows: nat)
    ensures
        kept_rows(records, max_rows).len() <= max_rows,
        kept_rows(records, max_rows).len() <= parsed_rows(records).len(),
        parsed_rows(records).len() <= max_rows ==> kept_rows(records, max_rows) == parsed_rows(
            records,
        ),
{
}

/// What reading yields never lacks its widths: a table that was read is
/// measured, with one width per field of its first record.
pub proof fn lemma_read_is_measured(
    header: Option<Seq<Seq<char>>>,
    records: Seq<Option<Seq<Seq<char>>>>,
    config: CsvConfig,
)
    ensures
        read_outcome(header, records, config) matches Ok(table) ==> {
            &&& table.is_measured()
            &&& table.column_widths.len() == table.column_count()
            &&& table.rows.len() <= config.max_rows
            &&& table.headers is Some <==> config.has_headers
        },
        read_outcome(header, records, config) is Err <==> config.has_headers && !is_header(
            header,
        ),
{
    if read_outcome(header, records, config) is Ok {
        let table = read_outcome(header, records, config)->Ok_0;
        assert(table.column_widths =~= table.measured_widths());
    }
}

impl CsvReader for CsvReaderService {
    open spec fn reads(
        &self,
        bytes: Seq<u8>,
        config: CsvConfig,
        out: Result<Table, ReadError>,
    ) -> bool {
        out == read_outcome(
            csv_header(bytes, config.delimiter),
            csv_records(bytes, config.delimiter, config.has_headers),
            config,
        )
    }

    /// Parses `bytes` with `csv` and builds the table from the result.
    fn read(&self, bytes: &[u8], config: &CsvConfig) -> (out: Result<CsvData, ReadError>) {
        let header = if config.has_headers {
            parse_header(bytes, config.delimiter)
        } else {
            None
        };
        let records = parse_records(bytes, config.delimiter, config.has_headers);
        self.assemble(header, records, config)
    }
}

} // verus!
