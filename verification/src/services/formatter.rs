//! Rendering a table as a bordered, aligned block of text.

use crate::bridge::paint::{
    alternate_style, header_style, is_painted, paint_alternate, paint_header, paint_primary,
    primary_style,
};
use crate::bridge::measure::display_width;
use crate::domain::data::{
    column_width, lemma_column_width_is_greatest, width_values, CsvData, Record, Table,
};
use crate::text::{join, joined, missing, pad, padded, push_repeated, repeated, texts};
use vstd::prelude::*;

verus! {

/// The glyph that border lines are drawn with.
pub const HORIZONTAL: char = '─';

/// The glyph that divides the cells of a row.
pub const VERTICAL: char = '│';

/// The rule above or below one column: its width and one padding space on
/// each side.
pub open spec fn rule(width: nat) -> Seq<char> {
    repeated(HORIZONTAL, width + 2)
}

/// The rules of all columns.
pub open spec fn rules(widths: Seq<nat>) -> Seq<Seq<char>> {
    widths.map_values(|width: nat| rule(width))
}

/// A border line: the rules joined by `mid`, between `left` and `right`.
pub open spec fn border_line(
    widths: Seq<nat>,
    left: Seq<char>,
    mid: Seq<char>,
    right: Seq<char>,
) -> Seq<char> {
    left + joined(rules(widths), mid) + right
}

/// The border above the table.
pub open spec fn top_line(widths: Seq<nat>) -> Seq<char> {
    border_line(widths, seq!['┌'], seq!['┬'], seq!['┐'])
}

/// The border between the header and the rows.
pub open spec fn separator_line(widths: Seq<nat>) -> Seq<char> {
    border_line(widths, seq!['├'], seq!['┼'], seq!['┤'])
}

/// The border below the table.
pub open spec fn bottom_line(widths: Seq<nat>) -> Seq<char> {
    border_line(widths, seq!['└'], seq!['┴'], seq!['┘'])
}

/// The text of the cell at position `column`: the field padded to the
/// display width of its column, or, for a field beyond the columns, the
/// field as it is, at its own length.
pub open spec fn cell_text(widths: Seq<nat>, column: int, field: Seq<char>) -> Seq<char> {
    if column < widths.len() {
        padded(field, widths[column])
    } else {
        field
    }
}

/// The fields of a record as the texts of their cells.
pub open spec fn padded_cells(fields: Seq<Seq<char>>, widths: Seq<nat>) -> Seq<Seq<char>> {
    Seq::new(fields.len(), |column: int| cell_text(widths, column, fields[column]))
}

/// The colour sequence of a cell: of a header cell, or of a cell in a row at
/// an odd (`is_alt`) or even position.
pub open spec fn style_code(is_header: bool, is_alt: bool) -> Seq<char> {
    if is_header {
        header_style()
    } else if is_alt {
        alternate_style()
    } else {
        primary_style()
    }
}

/// Whether `cells` are the texts `plain`, one for one, each as `colored` may
/// hand it back under `style`.
pub open spec fn are_painted(
    plain: Seq<Seq<char>>,
    style: Seq<char>,
    cells: Seq<Seq<char>>,
) -> bool {
    &&& cells.len() == plain.len()
    &&& forall|column: int|
        0 <= column < plain.len() ==> is_painted(plain[column], style, #[trigger] cells[column])
}

/// The line of a row: its cells between dividers, one space inside each.
pub open spec fn row_line(cells: Seq<Seq<char>>) -> Seq<char> {
    seq![VERTICAL, ' '] + joined(cells, seq![' ', VERTICAL, ' ']) + seq![' ', VERTICAL]
}

/// Whether `line` renders the record `fields`: every field padded to its
/// width and painted in `style`, none left out.
pub open spec fn is_row_line(
    fields: Seq<Seq<char>>,
    widths: Seq<nat>,
    style: Seq<char>,
    line: Seq<char>,
) -> bool {
    exists|cells: Seq<Seq<char>>| #[trigger]
        are_painted(padded_cells(fields, widths), style, cells) && line == row_line(cells)
}

/// The number of lines before the first data row.
pub open spec fn head_lines(table: Table) -> int {
    if table.headers is Some {
        3
    } else {
        1
    }
}

/// Whether `lines` are the lines of `table`: the top border; the header row
/// and a separator where there is a header; the rows, those at odd positions
/// in the alternate style; the bottom border.
pub open spec fn are_table_lines(table: Table, lines: Seq<Seq<char>>) -> bool {
    let widths = table.column_widths;
    &&& lines.len() == head_lines(table) + table.rows.len() + 1
    &&& lines[0] == top_line(widths)
    &&& table.headers matches Some(header) ==> {
        &&& is_row_line(header, widths, style_code(true, false), lines[1])
        &&& lines[2] == separator_line(widths)
    }
    &&& forall|row: int|
        0 <= row < table.rows.len() ==> is_row_line(
            #[trigger] table.rows[row],
            widths,
            style_code(false, row % 2 == 1),
            lines[head_lines(table) + row],
        )
    &&& lines.last() == bottom_line(widths)
}

/// Whether `out` is what rendering `table` gives: nothing for a table
/// without columns, else its lines joined by line feeds.
pub open spec fn is_rendering(table: Table, out: Option<Seq<char>>) -> bool {
    if table.column_widths.len() == 0 {
        out is None
    } else {
        out matches Some(text) && exists|lines: Seq<Seq<char>>| #[trigger]
            are_table_lines(table, lines) && text == joined(lines, seq!['\n'])
    }
}

/// The lengths of the runs of [`HORIZONTAL`] in `line`, which every other
/// glyph ends: what a reader of a border sees between its junctions.
pub open spec fn run_lengths(line: Seq<char>) -> Seq<nat>
    decreases line.len(),
{
    if line.len() == 0 {
        seq![0nat]
    } else {
        let before = run_lengths(line.drop_last());
        if line.last() == HORIZONTAL {
            before.update(before.len() - 1, before.last() + 1)
        } else {
            before.push(0)
        }
    }
}

/// The segment lengths read back from a border line: the runs between its
/// two corner glyphs.
pub open spec fn border_segments(line: Seq<char>) -> Seq<nat> {
    run_lengths(line.subrange(1, line.len() - 1))
}

/// The number of columns that a border line shows.
pub open spec fn visual_columns(line: Seq<char>) -> nat {
    border_segments(line).len()
}

/// The segment lengths that columns of the given widths call for: each
/// width and two.
pub open spec fn segment_lengths(widths: Seq<nat>) -> Seq<nat> {
    Seq::new(widths.len(), |column: int| widths[column] + 2)
}

/// There is always at least one run, if only an empty one.
proof fn lemma_run_lengths_nonempty(line: Seq<char>)
    ensures
        run_lengths(line).len() >= 1,
    decreases line.len(),
{
    if line.len() > 0 {
        lemma_run_lengths_nonempty(line.drop_last());
    }
}

/// Rule glyphs at the end of a line lengthen its last run.
proof fn lemma_run_lengths_rule(line: Seq<char>, count: nat)
    ensures
        run_lengths(line + repeated(HORIZONTAL, count)) == run_lengths(line).update(
            run_lengths(line).len() - 1,
            run_lengths(line).last() + count,
        ),
    decreases count,
{
    lemma_run_lengths_nonempty(line);
    if count > 0 {
        let shorter = line + repeated(HORIZONTAL, (count - 1) as nat);
        let longer = line + repeated(HORIZONTAL, count);
        lemma_run_lengths_rule(line, (count - 1) as nat);
        assert(longer.drop_last() =~= shorter);
    }
}

/// The runs of rules joined by a junction glyph are the rules' lengths.
proof fn lemma_run_lengths_rules(widths: Seq<nat>, mid: char)
    requires
        widths.len() >= 1,
        mid != HORIZONTAL,
    ensures
        run_lengths(joined(rules(widths), seq![mid])) == segment_lengths(widths),
    decreases widths.len(),
{
    let last = widths.last();
    if widths.len() == 1 {
        lemma_run_lengths_rule(Seq::empty(), last + 2);
    } else {
        let front = widths.drop_last();
        lemma_run_lengths_rules(front, mid);
        assert(rules(widths).drop_last() =~= rules(front));
        let head = joined(rules(front), seq![mid]);
        let cut = head + seq![mid];
        assert(cut.drop_last() =~= head);
        lemma_run_lengths_rule(cut, last + 2);
    }
}

/// A border line can be read back: the runs between its corner glyphs are
/// the segments of its columns, each as long as its width and two, so the
/// number of runs is the number of columns. This holds of every border over
/// at least one column whose junction glyph is not the rule glyph.
pub proof fn lemma_border_round_trip(widths: Seq<nat>, left: char, mid: char, right: char)
    requires
        widths.len() > 0,
        mid != HORIZONTAL,
    ensures
        border_segments(border_line(widths, seq![left], seq![mid], seq![right]))
            == segment_lengths(widths),
        visual_columns(border_line(widths, seq![left], seq![mid], seq![right])) == widths.len(),
{
    let inner = joined(rules(widths), seq![mid]);
    let line = border_line(widths, seq![left], seq![mid], seq![right]);
    lemma_run_lengths_rules(widths, mid);
    assert(line.subrange(1, line.len() - 1) =~= inner);
}

/// The three borders of a rendered table read back to the segments of its
/// columns: top and bottom always, and the separator where there is a
/// header.
pub proof fn lemma_table_borders_round_trip(table: Table, lines: Seq<Seq<char>>)
    requires
        table.column_widths.len() > 0,
        are_table_lines(table, lines),
    ensures
        border_segments(lines[0]) == segment_lengths(table.column_widths),
        border_segments(lines.last()) == segment_lengths(table.column_widths),
        table.headers is Some ==> border_segments(lines[2]) == segment_lengths(
            table.column_widths,
        ),
        visual_columns(lines[0]) == table.column_widths.len(),
        visual_columns(lines.last()) == table.column_widths.len(),
{
    lemma_border_round_trip(table.column_widths, '┌', '┬', '┐');
    lemma_border_round_trip(table.column_widths, '├', '┼', '┤');
    lemma_border_round_trip(table.column_widths, '└', '┴', '┘');
}

/// A table with a header and no rows renders as four lines: the top border,
/// the header row, the separator and the bottom border. With at least one
/// column its rendering is content, not nothing.
pub proof fn lemma_header_only_table(table: Table, out: Option<Seq<char>>)
    requires
        table.headers is Some,
        table.rows.len() == 0,
        table.column_widths.len() > 0,
        is_rendering(table, out),
    ensures
        out matches Some(text) && exists|lines: Seq<Seq<char>>|
            {
                &&& #[trigger] are_table_lines(table, lines)
                &&& text == joined(lines, seq!['\n'])
                &&& lines.len() == 4
                &&& lines[0] == top_line(table.column_widths)
                &&& is_row_line(
                    table.headers->0,
                    table.column_widths,
                    style_code(true, false),
                    lines[1],
                )
                &&& lines[2] == separator_line(table.column_widths)
                &&& lines[3] == bottom_line(table.column_widths)
            },
{
}

/// A table without columns renders as nothing, and only such a table does.
pub proof fn lemma_nothing_to_render(table: Table, out: Option<Seq<char>>)
    requires
        is_rendering(table, out),
    ensures
        out is None <==> table.column_widths.len() == 0,
{
}

/// Padding never clips: the padded text opens with the whole text and holds
/// after it only spaces, as many as the text's display width falls short of
/// the width asked for. Text that is that wide already comes back as it is.
pub proof fn lemma_padding_keeps_text(text: Seq<char>, width: nat)
    ensures
        padded(text, width).len() == text.len() + missing(display_width(text), width),
        display_width(text) + missing(display_width(text), width) == (if display_width(text)
            >= width {
            display_width(text)
        } else {
            width
        }),
        padded(text, width).take(text.len() as int) == text,
        forall|i: int|
            text.len() <= i < padded(text, width).len() ==> padded(text, width)[i] == ' ',
        display_width(text) >= width ==> padded(text, width) == text,
{
    assert(padded(text, width).take(text.len() as int) =~= text);
    if display_width(text) >= width {
        assert(padded(text, width) =~= text);
    }
}

/// In a measured table every cell inside the columns reaches the width of
/// its column exactly: the display width of its field and the spaces that
/// follow add up to it. So the rows are as wide as the borders.
pub proof fn lemma_cells_reach_their_width(table: Table, record: int, column: int)
    requires
        table.is_measured(),
        0 <= record < table.records().len(),
        0 <= column < table.records()[record].len(),
        column < table.column_widths.len(),
    ensures
        display_width(table.records()[record][column]) <= table.column_widths[column],
        display_width(table.records()[record][column]) + missing(
            display_width(table.records()[record][column]),
            table.column_widths[column],
        ) == table.column_widths[column],
        cell_text(table.column_widths, column, table.records()[record][column])
            == table.records()[record][column] + repeated(
            ' ',
            (table.column_widths[column] - display_width(
                table.records()[record][column],
            )) as nat,
        ),
{
    lemma_column_width_is_greatest(table.records(), column);
    assert(table.column_widths[column] == column_width(table.records(), column));
}

/// A row line holds one cell for every field of its record, whatever the
/// number of columns: a field beyond the columns is there too, at its own
/// length, and no field is clipped.
pub proof fn lemma_row_keeps_every_field(
    fields: Seq<Seq<char>>,
    widths: Seq<nat>,
    style: Seq<char>,
    line: Seq<char>,
)
    requires
        is_row_line(fields, widths, style, line),
    ensures
        exists|cells: Seq<Seq<char>>|
            {
                &&& #[trigger] are_painted(padded_cells(fields, widths), style, cells)
                &&& line == row_line(cells)
                &&& cells.len() == fields.len()
            },
        padded_cells(fields, widths).len() == fields.len(),
        forall|column: int|
            0 <= column < fields.len() ==> (#[trigger] padded_cells(fields, widths)[column]).take(
                fields[column].len() as int,
            ) == fields[column],
        forall|column: int|
            widths.len() <= column < fields.len() ==> (#[trigger] padded_cells(
                fields,
                widths,
            )[column]) == fields[column],
{
    assert forall|column: int| 0 <= column < fields.len() implies (#[trigger] padded_cells(
        fields,
        widths,
    )[column]).take(fields[column].len() as int) == fields[column] by {
        if column < widths.len() {
            lemma_padding_keeps_text(fields[column], widths[column]);
        } else {
            assert(fields[column].take(fields[column].len() as int) =~= fields[column]);
        }
    }
}

/// The characters of an optional string.
pub open spec fn text_view(out: Option<String>) -> Option<Seq<char>> {
    match out {
        Some(text) => Some(text@),
        None => None,
    }
}

/// Something that can render a table as text.
pub trait CsvFormatter {
    /// Whether `out` is a rendering that this formatter may give for
    /// `table`. A formatter that says nothing here may give any.
    open spec fn renders(&self, table: Table, out: Option<Seq<char>>) -> bool {
        true
    }

    /// Renders `data`, or returns nothing where there is nothing to draw.
    fn format(&self, data: &CsvData) -> (out: Option<String>)
        ensures
            self.renders(data@, text_view(out)),
    ;
}

/// The renderer that draws a box around the table.
pub struct TableFormatter;

impl TableFormatter {
    pub fn new() -> Self {
        Self
    }

    /// Draws a border line over columns of the given widths.
    pub fn border(&self, widths: &[usize], left: &str, mid: &str, right: &str) -> (line: String)
        ensures
            line@ == border_line(width_values(widths@), left@, mid@, right@),
    {
        let mut parts: Vec<String> = Vec::new();
        let mut i: usize = 0;
        while i < widths.len()
            invariant
                i <= widths.len(),
                parts.len() == i,
                forall|column: int|
                    0 <= column < i ==> (#[trigger] parts[column])@ == rule(
                        widths[column] as nat,
                    ),
            decreases widths.len() - i,
        {
            let mut part = String::new();
            push_repeated(&mut part, HORIZONTAL, widths[i]);
            part.push(HORIZONTAL);
            part.push(HORIZONTAL);
            parts.push(part);
            i += 1;
        }
        assert(texts(parts@) =~= rules(width_values(widths@)));
        let inner = join(&parts, mid);
        let mut line = String::from_str(left);
        line.append(inner.as_str());
        line.append(right);
        line
    }

    /// The border above the table.
    pub fn top(&self, widths: &[usize]) -> (line: String)
        ensures
            line@ == top_line(width_values(widths@)),
    {
        proof {
            reveal_strlit("┌");
            reveal_strlit("┬");
            reveal_strlit("┐");
            assert("┬"@ =~= seq!['┬']);
        }
        self.border(widths, "┌", "┬", "┐")
    }

    /// The border between the header and the rows.
    pub fn sep(&self, widths: &[usize]) -> (line: String)
        ensures
            line@ == separator_line(width_values(widths@)),
    {
        proof {
            reveal_strlit("├");
            reveal_strlit("┼");
            reveal_strlit("┤");
            assert("┼"@ =~= seq!['┼']);
        }
        self.border(widths, "├", "┼", "┤")
    }

    /// The border below the table.
    pub fn bottom(&self, widths: &[usize]) -> (line: String)
        ensures
            line@ == bottom_line(width_values(widths@)),
    {
        proof {
            reveal_strlit("└");
            reveal_strlit("┴");
            reveal_strlit("┘");
            assert("┴"@ =~= seq!['┴']);
        }
        self.border(widths, "└", "┴", "┘")
    }

    /// Paints one cell: a header cell in bold bright cyan, a cell of a row
    /// at an odd position in bright white, any other in white.
    pub fn style_cell(&self, text: String, is_header: bool, is_alt: bool) -> (out: String)
        ensures
            is_painted(text@, style_code(is_header, is_alt), out@),
    {
        if is_header {
            paint_header(text.as_str())
        } else if is_alt {
            paint_alternate(text.as_str())
        } else {
            paint_primary(text.as_str())
        }
    }

    /// Puts painted cells between dividers.
    pub fn frame_row(&self, cells: &Vec<String>) -> (line: String)
        ensures
            line@ == row_line(texts(cells@)),
    {
        proof {
            reveal_strlit("│ ");
            reveal_strlit(" │ ");
            reveal_strlit(" │");
            assert(" │ "@ =~= seq![' ', VERTICAL, ' ']);
        }
        let inner = join(cells, " │ ");
        let mut line = String::from_str("│ ");
        line.append(inner.as_str());
        line.append(" │");
        line
    }

    /// Renders one record as a row of the table.
    ///
    /// Every field of the record gets a cell. A field inside the columns is
    /// padded to the display width of its column; one beyond the columns is
    /// shown as it is, at its own length.
    pub fn format_row(
        &self,
        record: &Record,
        widths: &[usize],
        is_header: bool,
        is_alt: bool,
    ) -> (line: String)
        ensures
            is_row_line(
                record@,
                width_values(widths@),
                style_code(is_header, is_alt),
                line@,
            ),
    {
        let ghost plain = padded_cells(record@, width_values(widths@));
        let ghost style = style_code(is_header, is_alt);
        let mut cells: Vec<String> = Vec::new();
        let mut i: usize = 0;
        while i < record.fields.len()
            invariant
                i <= record.fields.len(),
                cells.len() == i,
                plain == padded_cells(record@, width_values(widths@)),
                style == style_code(is_header, is_alt),
                forall|column: int|
                    0 <= column < i ==> is_painted(
                        plain[column],
                        style,
                        (#[trigger] cells[column])@,
                    ),
            decreases record.fields.len() - i,
        {
            let field = record.fields[i].as_str();
            let text = if i < widths.len() {
                pad(field, widths[i])
            } else {
                String::from_str(field)
            };
            let cell = self.style_cell(text, is_header, is_alt);
            cells.push(cell);
            i += 1;
        }
        assert(are_painted(plain, style, texts(cells@)));
        self.frame_row(&cells)
    }

    /// The lines of the table, for a table with at least one column.
    pub fn format_lines(&self, data: &CsvData) -> (lines: Vec<String>)
        ensures
            are_table_lines(data@, texts(lines@)),
    {
        let widths = data.column_widths.as_slice();
        let ghost table = data@;
        let mut lines: Vec<String> = Vec::new();
        lines.push(self.top(widths));
        match &data.headers {
            Some(header) => {
                lines.push(self.format_row(header, widths, true, false));
                lines.push(self.sep(widths));
            },
            None => {},
        }
        let mut i: usize = 0;
        while i < data.rows.len()
            invariant
                i <= data.rows.len(),
                table == data@,
                widths@ == data.column_widths@,
                lines.len() == head_lines(table) + i,
                lines[0]@ == top_line(table.column_widths),
                table.headers matches Some(header) ==> {
                    &&& is_row_line(header, table.column_widths, style_code(true, false), lines[1]@)
                    &&& lines[2]@ == separator_line(table.column_widths)
                },
                forall|row: int|
                    0 <= row < i ==> is_row_line(
                        #[trigger] table.rows[row],
                        table.column_widths,
                        style_code(false, row % 2 == 1),
                        lines[head_lines(table) + row]@,
                    ),
            decreases data.rows.len() - i,
        {
            lines.push(self.format_row(&data.rows[i], widths, false, i % 2 == 1));
            i += 1;
        }
        lines.push(self.bottom(widths));
        lines
    }
}

impl CsvFormatter for TableFormatter {
    open spec fn renders(&self, table: Table, out: Option<Seq<char>>) -> bool {
        is_rendering(table, out)
    }

    /// Renders `data` as a bordered table, or returns nothing for a table
    /// without columns.
    fn format(&self, data: &CsvData) -> (out: Option<String>) {
        if data.column_widths.len() == 0 {
            return None;
        }
        let lines = self.format_lines(data);
        proof {
            reveal_strlit("\n");
            assert("\n"@ =~= seq!['\n']);
        }
        let text = join(&lines, "\n");
        Some(text)
    }
}

} // verus!
