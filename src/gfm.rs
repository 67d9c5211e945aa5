//! The GitHub Flavored Markdown formatter.

use vstd::prelude::*;
use vstd::string::*;
use crate::columns::{within, widths_within, ColumnInfo};
use crate::formatter::{info_view, opt_text, texts, Formatter};
use crate::table::WIDTH_LIMIT;
use crate::text::{char_count, lower_of, push_char, replace_char, replaced, to_lower};
use crate::units::{Comparison, Direction, TimeUnit};

verus! {

/// Markup around a row label: bold and backticks, `**``**`.
pub const FIRST_COL_EXTRA_WIDTH: usize = 6;

/// Markup around a used cell at its widest: backticks, parentheses, a space,
/// bold and a marker, `() ``****XX`.
pub const USED_EXTRA_WIDTH: usize = 11;

/// `max_width - written + 1` copies of `ch`: the padding that ends a cell one
/// space past its column's width.
pub open spec fn pad_text(ch: char, max_width: int, written: int) -> Seq<char> {
    Seq::new((max_width - written + 1) as nat, |i: int| ch)
}

/// A comment line, if any.
pub open spec fn comment_block(comment: Option<Seq<char>>) -> Seq<char> {
    match comment {
        Some(c) => c + "\n"@,
        None => Seq::empty(),
    }
}

/// The anchor of a table name: spaces become hyphens, then lowercase.
pub open spec fn link_of(name: Seq<char>) -> Seq<char> {
    lower_of(replaced(name, ' ', '-'))
}

/// The table of contents: one linked line per table.
pub open spec fn contents(tables: Seq<Seq<char>>) -> Seq<char>
    decreases tables.len(),
{
    if tables.len() == 0 {
        Seq::empty()
    } else {
        contents(tables.drop_last()) + "- ["@ + tables.last() + "](#"@ + link_of(tables.last()) + ")\n"@
    }
}

/// Header cells: each column name in backticks, padded.
pub open spec fn header_cells(columns: Seq<(Seq<char>, usize)>) -> Seq<char>
    decreases columns.len(),
{
    if columns.len() == 0 {
        Seq::empty()
    } else {
        let c = columns.last();
        header_cells(columns.drop_last()) + "| `"@ + c.0 + "`"@ + pad_text(' ', c.1 + USED_EXTRA_WIDTH, c.0.len() as int + 2)
    }
}

/// Delimiter cells: left-justified rules.
pub open spec fn rule_cells(columns: Seq<(Seq<char>, usize)>) -> Seq<char>
    decreases columns.len(),
{
    if columns.len() == 0 {
        Seq::empty()
    } else {
        let c = columns.last();
        rule_cells(columns.drop_last()) + "|:"@ + pad_text('-', c.1 + USED_EXTRA_WIDTH, 0)
    }
}

/// A used cell's content: the measurement in backticks and the comparison,
/// bold with a check mark when faster, italic with a cross when slower.
pub open spec fn cell_markup(time: TimeUnit, compare: Comparison) -> Seq<char> {
    let t = time.text_spec();
    let c = compare.text_spec();
    match compare.direction {
        Direction::Faster => "`"@ + t + "` (\u{2705} **"@ + c + "**)"@,
        Direction::Slower => "`"@ + t + "` (\u{274c} *"@ + c + "*)"@,
        Direction::Even => "`"@ + t + "` ("@ + c + ")"@,
    }
}

/// This formatter outputs GitHub Flavored Markdown.
pub struct GFMFormatter;

impl GFMFormatter {
    /// Pads the rest of a column, one character past `max_width`.
    pub fn pad(buffer: &mut String, ch: char, max_width: usize, written: usize)
        requires
            written <= max_width < usize::MAX,
        ensures
            final(buffer)@ == old(buffer)@ + pad_text(ch, max_width as int, written as int),
    {
        let remaining = max_width - written;
        let mut i: usize = 0;
        while i <= remaining
            invariant
                i <= remaining + 1,
                remaining == max_width - written,
                max_width < usize::MAX,
                buffer@ == old(buffer)@ + Seq::new(i as nat, |k: int| ch),
            decreases remaining + 1 - i,
        {
            push_char(buffer, ch);
            assert(buffer@ =~= old(buffer)@ + Seq::new((i + 1) as nat, |k: int| ch));
            i = i + 1;
        }
        assert(Seq::new(i as nat, |k: int| ch) =~= pad_text(ch, max_width as int, written as int));
    }

    /// The anchor of a table name.
    fn encode_link(s: &str) -> (r: String)
        ensures
            r@ == link_of(s@),
    {
        let dashed = replace_char(s, ' ', '-');
        to_lower(dashed.as_str())
    }

    fn push_comment(buffer: &mut String, comment: Option<&String>)
        ensures
            final(buffer)@ == old(buffer)@ + comment_block(opt_text(comment)),
    {
        match comment {
            Some(c) => {
                buffer.append(c.as_str());
                buffer.append("\n");
                assert(buffer@ =~= old(buffer)@ + comment_block(opt_text(comment)));
            },
            None => {
                assert(buffer@ =~= old(buffer)@ + comment_block(opt_text(comment)));
            },
        }
    }
}

impl Formatter for GFMFormatter {
    open spec fn start_spec(&self, comment: Option<Seq<char>>, tables: Seq<Seq<char>>) -> Seq<char> {
        "# Benchmarks\n\n"@ + comment_block(comment) + contents(tables) + "\n"@
    }

    open spec fn end_spec(&self) -> Seq<char> {
        "Made with [criterion-table](https://github.com/nu11ptr/criterion-table)\n"@
    }

    open spec fn start_table_spec(&self, name: Seq<char>, comment: Option<Seq<char>>, columns: Seq<(Seq<char>, usize)>) -> Seq<char> {
        let first = columns[0].1 + FIRST_COL_EXTRA_WIDTH;
        "## "@ + name + "\n\n"@ + comment_block(comment)
            + "| "@ + pad_text(' ', first, 0) + header_cells(columns.skip(1)) + " |\n"@
            + "|:"@ + pad_text('-', first, 0) + rule_cells(columns.skip(1)) + " |\n"@
    }

    open spec fn end_table_spec(&self) -> Seq<char> {
        "\n"@
    }

    open spec fn start_row_spec(&self, name: Seq<char>, max_width: usize) -> Seq<char> {
        if name.len() > 0 {
            "| **`"@ + name + "`**"@ + pad_text(' ', max_width + FIRST_COL_EXTRA_WIDTH, name.len() as int + FIRST_COL_EXTRA_WIDTH)
        } else {
            "| "@ + pad_text(' ', max_width + FIRST_COL_EXTRA_WIDTH, 0)
        }
    }

    open spec fn end_row_spec(&self) -> Seq<char> {
        " |\n"@
    }

    open spec fn used_column_spec(&self, time: TimeUnit, compare: Comparison, max_width: usize) -> Seq<char> {
        let data = cell_markup(time, compare);
        "| "@ + data + pad_text(' ', max_width + USED_EXTRA_WIDTH, data.len() as int)
    }

    open spec fn unused_column_spec(&self, max_width: usize) -> Seq<char> {
        "| "@ + "`N/A`"@ + pad_text(' ', max_width + USED_EXTRA_WIDTH, 5)
    }

    fn start(&mut self, buffer: &mut String, comment: Option<&String>, tables: &Vec<String>) {
        buffer.append("# Benchmarks\n\n");
        Self::push_comment(buffer, comment);
        let ghost names = texts(tables@);
        let ghost prefix = buffer@;
        let mut i: usize = 0;
        assert(names.take(0) =~= Seq::<Seq<char>>::empty());
        while i < tables.len()
            invariant
                i <= tables@.len(),
                names == texts(tables@),
                buffer@ == prefix + contents(names.take(i as int)),
            decreases tables@.len() - i,
        {
            let t = &tables[i];
            buffer.append("- [");
            buffer.append(t.as_str());
            buffer.append("](#");
            let link = Self::encode_link(t.as_str());
            buffer.append(link.as_str());
            buffer.append(")\n");
            assert(names.take(i + 1).drop_last() =~= names.take(i as int));
            assert(names.take(i + 1).last() == t@);
            assert(buffer@ =~= prefix + contents(names.take(i + 1)));
            i = i + 1;
        }
        assert(names.take(i as int) =~= names);
        buffer.append("\n");
        assert(buffer@ =~= old(buffer)@ + self.start_spec(opt_text(comment), names));
    }

    fn end(&mut self, buffer: &mut String) {
        buffer.append("Made with [criterion-table](https://github.com/nu11ptr/criterion-table)\n");
    }

    fn start_table(&mut self, buffer: &mut String, name: &String, comment: Option<&String>, columns: &Vec<ColumnInfo>) {
        let ghost cols = info_view(columns@);
        assert(cols.len() == columns@.len());
        assert(cols[0].1 == columns@[0].max_width);
        assert(within(cols[0], WIDTH_LIMIT));
        buffer.append("## ");
        buffer.append(name.as_str());
        buffer.append("\n\n");
        Self::push_comment(buffer, comment);

        // header row
        buffer.append("| ");
        let first_col_max_width = columns[0].max_width + FIRST_COL_EXTRA_WIDTH;
        Self::pad(buffer, ' ', first_col_max_width, 0);
        let ghost rest = cols.skip(1);
        let ghost prefix = buffer@;
        let mut i: usize = 1;
        assert(rest.take(0) =~= Seq::<(Seq<char>, usize)>::empty());
        while i < columns.len()
            invariant
                1 <= i <= columns@.len(),
                cols == info_view(columns@),
                cols.len() == columns@.len(),
                rest == cols.skip(1),
                widths_within(cols, WIDTH_LIMIT),
                buffer@ == prefix + header_cells(rest.take(i - 1)),
            decreases columns@.len() - i,
        {
            let column = &columns[i];
            assert(cols[i as int] == (column.name@, column.max_width));
            assert(0 <= i < cols.len());
            assert(widths_within(cols, WIDTH_LIMIT));
            assert(within(cols[i as int], WIDTH_LIMIT));
            let max_width = column.max_width + USED_EXTRA_WIDTH;
            buffer.append("| `");
            buffer.append(column.name.as_str());
            proof { reveal_strlit("`"); }
            buffer.append("`");
            let written = char_count(column.name.as_str()) + 2;
            Self::pad(buffer, ' ', max_width, written);
            assert(rest.take(i as int).drop_last() =~= rest.take(i - 1));
            assert(rest.take(i as int).last() == cols[i as int]);
            assert(buffer@ =~= prefix + header_cells(rest.take(i as int)));
            i = i + 1;
        }
        assert(rest.take(i - 1) =~= rest);
        buffer.append(" |\n");

        // delimiter row
        buffer.append("|:");
        Self::pad(buffer, '-', first_col_max_width, 0);
        let ghost prefix2 = buffer@;
        let mut i: usize = 1;
        while i < columns.len()
            invariant
                1 <= i <= columns@.len(),
                cols == info_view(columns@),
                cols.len() == columns@.len(),
                rest == cols.skip(1),
                widths_within(cols, WIDTH_LIMIT),
                buffer@ == prefix2 + rule_cells(rest.take(i - 1)),
            decreases columns@.len() - i,
        {
            let column = &columns[i];
            assert(cols[i as int] == (column.name@, column.max_width));
            assert(0 <= i < cols.len());
            assert(widths_within(cols, WIDTH_LIMIT));
            assert(within(cols[i as int], WIDTH_LIMIT));
            let max_width = column.max_width + USED_EXTRA_WIDTH;
            buffer.append("|:");
            Self::pad(buffer, '-', max_width, 0);
            assert(rest.take(i as int).drop_last() =~= rest.take(i - 1));
            assert(rest.take(i as int).last() == cols[i as int]);
            assert(buffer@ =~= prefix2 + rule_cells(rest.take(i as int)));
            i = i + 1;
        }
        assert(rest.take(i - 1) =~= rest);
        buffer.append(" |\n");
        assert(buffer@ =~= old(buffer)@ + self.start_table_spec(name@, opt_text(comment), cols));
    }

    fn end_table(&mut self, buffer: &mut String) {
        buffer.append("\n");
    }

    fn start_row(&mut self, buffer: &mut String, name: &String, max_width: usize) {
        let n = char_count(name.as_str());
        if n > 0 {
            buffer.append("| **`");
            buffer.append(name.as_str());
            buffer.append("`**");
            Self::pad(buffer, ' ', max_width + FIRST_COL_EXTRA_WIDTH, n + FIRST_COL_EXTRA_WIDTH);
        } else {
            buffer.append("| ");
            Self::pad(buffer, ' ', max_width + FIRST_COL_EXTRA_WIDTH, 0);
        }
        assert(buffer@ =~= old(buffer)@ + self.start_row_spec(name@, max_width));
    }

    fn end_row(&mut self, buffer: &mut String) {
        buffer.append(" |\n");
    }

    fn used_column(&mut self, buffer: &mut String, time: &TimeUnit, compare: &Comparison, max_width: usize) {
        let time_str = time.to_text();
        let speedup_str = compare.to_text();
        let mut data = String::new();
        proof {
            reveal_strlit("`");
            reveal_strlit("` (\u{2705} **");
            reveal_strlit("**)");
            reveal_strlit("` (\u{274c} *");
            reveal_strlit("*)");
            reveal_strlit("` (");
            reveal_strlit(")");
        }
        data.append("`");
        data.append(time_str.as_str());
        match compare.direction {
            Direction::Faster => {
                data.append("` (\u{2705} **");
                data.append(speedup_str.as_str());
                data.append("**)");
            },
            Direction::Slower => {
                data.append("` (\u{274c} *");
                data.append(speedup_str.as_str());
                data.append("*)");
            },
            Direction::Even => {
                data.append("` (");
                data.append(speedup_str.as_str());
                data.append(")");
            },
        }
        assert(data@ =~= cell_markup(*time, *compare));
        buffer.append("| ");
        buffer.append(data.as_str());
        let written = char_count(data.as_str());
        Self::pad(buffer, ' ', max_width + USED_EXTRA_WIDTH, written);
        assert(buffer@ =~= old(buffer)@ + self.used_column_spec(*time, *compare, max_width));
    }

    fn unused_column(&mut self, buffer: &mut String, max_width: usize) {
        buffer.append("| ");
        let data = "`N/A`";
        proof { reveal_strlit("`N/A`"); }
        buffer.append(data);
        Self::pad(buffer, ' ', max_width + USED_EXTRA_WIDTH, 5);
        assert(buffer@ =~= old(buffer)@ + self.unused_column_spec(max_width));
    }
}

} // verus!
