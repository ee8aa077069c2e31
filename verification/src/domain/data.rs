//! The table model: an optional header record, the data rows, and one
//! display width per column.

use crate::bridge::measure::{display_width, measure};
use crate::text::texts;
use vstd::prelude::*;

verus! {

/// One parsed line: its fields, in order.
#[derive(Debug, Clone, PartialEq, Eq)]
pub struct Record {
    pub fields: Vec<String>,
}

impl View for Record {
    type V = Seq<Seq<char>>;

    open spec fn view(&self) -> Seq<Seq<char>> {
        texts(self.fields@)
    }
}

impl Record {
    /// A record without fields.
    pub fn new() -> (record: Self)
        ensures
            record@ == Seq::<Seq<char>>::empty(),
    {
        let record = Self { fields: Vec::new() };
        record
    }

    /// The record that holds `fields`.
    pub fn from_fields(fields: Vec<String>) -> (record: Self)
        ensures
            record.fields == fields,
            record@ == texts(fields@),
    {
        Self { fields }
    }

    /// The number of fields.
    pub fn len(&self) -> (n: usize)
        ensures
            n == self@.len(),
    {
        self.fields.len()
    }

    /// Whether the record has no field.
    pub fn is_empty(&self) -> (empty: bool)
        ensures
            empty <==> self@.len() == 0,
    {
        self.fields.len() == 0
    }

    /// The field at position `i`, if there is one.
    pub fn get(&self, i: usize) -> (field: Option<&str>)
        ensures
            field is Some <==> i < self@.len(),
            field matches Some(text) ==> text@ == self@[i as int],
    {
        if i < self.fields.len() {
            Some(self.fields[i].as_str())
        } else {
            None
        }
    }
}

/// What a [`CsvData`] holds, as mathematical values.
pub struct Table {
    pub headers: Option<Seq<Seq<char>>>,
    pub rows: Seq<Seq<Seq<char>>>,
    pub column_widths: Seq<nat>,
}

/// The greatest display width among the fields at position `column` of
/// `records`, and 0 where no record reaches that far.
pub open spec fn column_width(records: Seq<Seq<Seq<char>>>, column: int) -> nat
    decreases records.len(),
{
    if records.len() == 0 {
        0
    } else {
        let before = column_width(records.drop_last(), column);
        let last = records.last();
        if 0 <= column < last.len() && display_width(last[column]) > before {
            display_width(last[column])
        } else {
            before
        }
    }
}

impl Table {
    /// The header, if there is one, followed by the rows.
    pub open spec fn records(self) -> Seq<Seq<Seq<char>>> {
        match self.headers {
            Some(header) => seq![header] + self.rows,
            None => self.rows,
        }
    }

    /// The field count of the first record: of the header if there is one,
    /// else of the first row, else 0.
    pub open spec fn column_count(self) -> nat {
        if self.records().len() > 0 {
            self.records()[0].len()
        } else {
            0
        }
    }

    /// One width per column, each the greatest display width in its column
    /// over the header and all rows. Fields beyond the column count do not
    /// take part.
    pub open spec fn measured_widths(self) -> Seq<nat> {
        Seq::new(self.column_count(), |column: int| column_width(self.records(), column))
    }

    /// Whether the widths are the ones that the records call for.
    pub open spec fn is_measured(self) -> bool {
        self.column_widths == self.measured_widths()
    }

    /// The table after its widths were computed anew: the same header and
    /// rows, and the widths that they call for, none for a table without
    /// columns. The widths that the table had play no part.
    pub open spec fn recomputed(self) -> Table {
        Table { column_widths: self.measured_widths(), ..self }
    }
}

/// A column's width is the greatest display width in it: no field at that
/// position is wider, and unless the width is 0 some field there is exactly
/// that wide.
pub proof fn lemma_column_width_is_greatest(records: Seq<Seq<Seq<char>>>, column: int)
    ensures
        forall|row: int|
            0 <= row < records.len() && 0 <= column < records[row].len() ==> display_width(
                #[trigger] records[row][column],
            ) <= column_width(records, column),
        column_width(records, column) == 0 || exists|row: int|
            0 <= row < records.len() && 0 <= column < records[row].len() && display_width(
                #[trigger] records[row][column],
            ) == column_width(records, column),
    decreases records.len(),
{
    if records.len() > 0 {
        let front = records.drop_last();
        lemma_column_width_is_greatest(front, column);
        assert forall|row: int|
            0 <= row < records.len() && 0 <= column < records[row].len() implies display_width(
            #[trigger] records[row][column],
        ) <= column_width(records, column) by {
            if row < front.len() {
                assert(front[row] == records[row]);
            }
        }
        if column_width(records, column) != 0 {
            if column_width(records, column) == column_width(front, column) {
                let row = choose|row: int|
                    0 <= row < front.len() && 0 <= column < front[row].len() && display_width(
                        #[trigger] front[row][column],
                    ) == column_width(front, column);
            } else {
                let row = records.len() - 1;
            }
        }
    }
}

/// After the widths were computed there is one width per field of the
/// first record, of the header if there is one, else of the first row.
pub proof fn lemma_recomputed_width_count(table: Table)
    ensures
        table.recomputed().is_measured(),
        table.recomputed().column_widths.len() == table.column_count(),
        table.headers matches Some(header) ==> table.recomputed().column_widths.len()
            == header.len(),
        table.headers is None && table.rows.len() > 0 ==> table.recomputed().column_widths.len()
            == table.rows[0].len(),
{
}

/// Computing the widths again on unchanged data changes nothing.
pub proof fn lemma_recomputed_twice(table: Table)
    ensures
        table.recomputed().recomputed() == table.recomputed(),
{
}

/// Adding a row to a table that has a first record and measuring again
/// keeps the number of widths and lowers none. A column that the new row
/// reaches gets the greater of its old width and the display width of the
/// row's field there; every other column keeps its width.
pub proof fn lemma_widths_after_adding_a_row(table: Table, row: Seq<Seq<char>>)
    requires
        table.headers is Some || table.rows.len() > 0,
    ensures
        ({
            let before = table.recomputed().column_widths;
            let after = (Table {
                rows: table.recomputed().rows.push(row),
                ..table.recomputed()
            }).recomputed().column_widths;
            &&& after.len() == before.len()
            &&& forall|column: int|
                0 <= column < before.len() ==> #[trigger] after[column] == (if column < row.len()
                    && display_width(row[column]) > before[column] {
                    display_width(row[column])
                } else {
                    before[column]
                })
            &&& forall|column: int| 0 <= column < before.len() ==> after[column] >= before[column]
        }),
{
    let first = table.recomputed();
    let grown = Table { rows: first.rows.push(row), ..first };
    assert(grown.records() =~= first.records().push(row));
    assert(grown.records().drop_last() =~= first.records());
    assert(first.records() =~= table.records());
}

/// The views of a list of records.
pub open spec fn record_views(records: Seq<Record>) -> Seq<Seq<Seq<char>>> {
    records.map_values(|record: Record| record@)
}

/// A list of widths as natural numbers.
pub open spec fn width_values(widths: Seq<usize>) -> Seq<nat> {
    widths.map_values(|width: usize| width as nat)
}

/// The view of an optional record.
pub open spec fn header_view(headers: Option<Record>) -> Option<Seq<Seq<char>>> {
    match headers {
        Some(record) => Some(record@),
        None => None,
    }
}

/// A table read from delimited text.
#[derive(Debug)]
pub struct CsvData {
    pub headers: Option<Record>,
    pub rows: Vec<Record>,
    pub column_widths: Vec<usize>,
}

impl View for CsvData {
    type V = Table;

    open spec fn view(&self) -> Table {
        Table {
            headers: header_view(self.headers),
            rows: record_views(self.rows@),
            column_widths: width_values(self.column_widths@),
        }
    }
}

impl CsvData {
    /// An empty table: no header, no rows, no widths.
    pub fn new() -> (data: Self)
        ensures
            data@.headers is None,
            data@.rows.len() == 0,
            data@.column_widths.len() == 0,
    {
        Self { headers: None, rows: Vec::new(), column_widths: Vec::new() }
    }

    /// Makes `headers` the header record.
    pub fn set_headers(&mut self, headers: Record)
        ensures
            final(self)@ == (Table { headers: Some(headers@), ..old(self)@ }),
    {
        self.headers = Some(headers);
    }

    /// Appends `row` to the rows.
    pub fn add_row(&mut self, row: Record)
        ensures
            final(self)@ == (Table { rows: old(self)@.rows.push(row@), ..old(self)@ }),
    {
        self.rows.push(row);
        assert(record_views(self.rows@) =~= record_views(old(self).rows@).push(row@));
    }

    /// Raises the width of column `i` to `width` where that is greater.
    /// A position beyond the columns changes nothing.
    pub fn widen(&mut self, i: usize, width: usize)
        ensures
            final(self).headers == old(self).headers,
            final(self).rows == old(self).rows,
            final(self).column_widths@ == (if i < old(self).column_widths@.len()
                && width > old(self).column_widths@[i as int] {
                old(self).column_widths@.update(i as int, width)
            } else {
                old(self).column_widths@
            }),
    {
        if i < self.column_widths.len() {
            if width > self.column_widths[i] {
                self.column_widths.set(i, width);
            }
        }
    }

    /// Whether there is at least one data row.
    pub fn has_data(&self) -> (some: bool)
        ensures
            some <==> self@.rows.len() > 0,
    {
        self.rows.len() > 0
    }

    /// Computes the column widths from scratch.
    ///
    /// The column count is the field count of the header if there is one,
    /// else of the first row. Each width becomes the greatest display width
    /// found in its column; fields beyond the column count are passed over,
    /// and their rows stay. A table without columns gets no widths. The
    /// widths that the table had before play no part.
    pub fn compute_column_widths(&mut self)
        ensures
            final(self).headers == old(self).headers,
            final(self).rows == old(self).rows,
            final(self)@ == old(self)@.recomputed(),
    {
        let ghost records = self@.records();
        let header_len = match &self.headers {
            Some(header) => header.len(),
            None => 0,
        };
        let columns = match &self.headers {
            Some(header) => header.len(),
            None => if self.rows.len() > 0 {
                self.rows[0].len()
            } else {
                0
            },
        };
        if columns == 0 {
            self.column_widths = Vec::new();
            assert(self@.column_widths =~= old(self)@.measured_widths());
            return ;
        }
        let mut widths: Vec<usize> = Vec::new();
        while widths.len() < columns
            invariant
                widths.len() <= columns,
                forall|column: int| 0 <= column < widths.len() ==> widths[column] == 0,
            decreases columns - widths.len(),
        {
            widths.push(0);
        }
        self.column_widths = widths;

        let mut i: usize = 0;
        while i < header_len
            invariant
                self.headers == old(self).headers,
                self.rows == old(self).rows,
                records == old(self)@.records(),
                self.headers is Some ==> header_len == self.headers->0@.len(),
                self.headers is None ==> header_len == 0,
                i <= header_len,
                self.column_widths@.len() == columns,
                forall|column: int|
                    0 <= column < columns ==> self.column_widths@[column] as nat == (if column
                        < i {
                        column_width(records.take(1), column)
                    } else {
                        0
                    }),
            decreases header_len - i,
        {
            let width = match &self.headers {
                Some(header) => measure(header.fields[i].as_str()),
                None => 0,
            };
            proof {
                assert(records.take(1).drop_last() =~= records.take(0));
                assert(column_width(records.take(0), i as int) == 0);
            }
            self.widen(i, width);
            i += 1;
        }

        let ghost offset: int = if self.headers is Some {
            1
        } else {
            0
        };
        proof {
            assert forall|column: int| 0 <= column < columns implies self.column_widths@[column]
                as nat == column_width(records.take(offset), column) by {}
        }
        let mut r: usize = 0;
        while r < self.rows.len()
            invariant
                self.headers == old(self).headers,
                self.rows == old(self).rows,
                records == old(self)@.records(),
                offset == (if self.headers is Some {
                    1int
                } else {
                    0int
                }),
                r <= self.rows.len(),
                self.column_widths@.len() == columns,
                forall|column: int|
                    0 <= column < columns ==> self.column_widths@[column] as nat == column_width(
                        records.take(offset + r),
                        column,
                    ),
            decreases self.rows.len() - r,
        {
            let fields = self.rows[r].len();
            let ghost row = records[offset + r];
            let mut i: usize = 0;
            while i < fields
                invariant
                    self.headers == old(self).headers,
                    self.rows == old(self).rows,
                    records == old(self)@.records(),
                    r < self.rows.len(),
                    0 <= offset + r < records.len(),
                    row == records[offset + r],
                    row == self.rows@[r as int]@,
                    fields == row.len(),
                    records.take(offset + r + 1).drop_last() == records.take(offset + r),
                    records.take(offset + r + 1).last() == row,
                    i <= fields,
                    self.column_widths@.len() == columns,
                    forall|column: int|
                        0 <= column < columns ==> self.column_widths@[column] as nat == (if column
                            < i {
                            column_width(records.take(offset + r + 1), column)
                        } else {
                            column_width(records.take(offset + r), column)
                        }),
                decreases fields - i,
            {
                if i < self.column_widths.len() {
                    let width = measure(self.rows[r].fields[i].as_str());
                    self.widen(i, width);
                }
                i += 1;
            }
            r += 1;
        }
        proof {
            assert(records.take(offset + r) =~= records);
            assert(self@.column_widths =~= old(self)@.measured_widths());
        }
    }
}

} // verus!
