//! The fixed traversal that drives a [`Formatter`] over finished tables.

use vstd::prelude::*;
use crate::columns::{names_column, within, widths_within, ColumnInfo};
use crate::config::TablesConfig;
use crate::data::CriterionTableData;
use crate::formatter::{info_view, opt_text, texts, Formatter};
use crate::gfm::GFMFormatter;
use crate::keyed::{find_key, key_position};
use crate::table::{cell_fits, cells_registered, Row, Table, WIDTH_LIMIT};

verus! {

/// The text of an optional owned string.
pub open spec fn owned_text(o: Option<String>) -> Option<Seq<char>> {
    match o {
        Some(s) => Some(s@),
        None => None,
    }
}

/// Table names, in order.
pub open spec fn table_names(tables: Seq<Table>) -> Seq<Seq<char>> {
    tables.map_values(|t: Table| t.name@)
}

/// One cell: the row's data for the column, or the placeholder.
pub open spec fn cell_text<F: Formatter>(f: F, row: Row, column: (Seq<char>, usize)) -> Seq<char> {
    match key_position(row.column_data@, column.0) {
        Some(j) => f.used_column_spec(row.column_data@[j].time_unit, row.column_data@[j].pct, column.1),
        None => f.unused_column_spec(column.1),
    }
}

/// The cells of a row, one per column.
pub open spec fn cells_text<F: Formatter>(f: F, row: Row, columns: Seq<(Seq<char>, usize)>) -> Seq<char>
    decreases columns.len(),
{
    if columns.len() == 0 {
        Seq::empty()
    } else {
        cells_text(f, row, columns.drop_last()) + cell_text(f, row, columns.last())
    }
}

/// One row: its label, a cell for each column but the label column, the end.
pub open spec fn row_text<F: Formatter>(f: F, row: Row, columns: Seq<(Seq<char>, usize)>) -> Seq<char> {
    f.start_row_spec(row.name@, columns[0].1) + cells_text(f, row, columns.skip(1)) + f.end_row_spec()
}

/// The rows of a table, in insertion order.
pub open spec fn rows_text<F: Formatter>(f: F, rows: Seq<Row>, columns: Seq<(Seq<char>, usize)>) -> Seq<char>
    decreases rows.len(),
{
    if rows.len() == 0 {
        Seq::empty()
    } else {
        rows_text(f, rows.drop_last(), columns) + row_text(f, rows.last(), columns)
    }
}

/// One table; nothing for a table without columns.
pub open spec fn table_text<F: Formatter>(f: F, table: Table, config: TablesConfig) -> Seq<char> {
    if table.columns@.len() == 0 {
        Seq::empty()
    } else {
        f.start_table_spec(table.name@, owned_text(config.comment_of(table.name@)), table.columns@)
            + rows_text(f, table.rows@, table.columns@) + f.end_table_spec()
    }
}

/// All tables, in order.
pub open spec fn tables_text<F: Formatter>(f: F, tables: Seq<Table>, config: TablesConfig) -> Seq<char>
    decreases tables.len(),
{
    if tables.len() == 0 {
        Seq::empty()
    } else {
        tables_text(f, tables.drop_last(), config) + table_text(f, tables.last(), config)
    }
}

/// The whole document: the start, every table, the end.
pub open spec fn document<F: Formatter>(f: F, tables: Seq<Table>, config: TablesConfig) -> Seq<char> {
    f.start_spec(owned_text(config.comments), table_names(tables)) + tables_text(f, tables, config) + f.end_spec()
}

fn render_row<F: Formatter>(f: &mut F, buffer: &mut String, row: &Row, columns: &Vec<ColumnInfo>)
    requires
        row.wf(),
        columns@.len() >= 1,
        widths_within(info_view(columns@), WIDTH_LIMIT),
        row.name@.len() <= columns@[0].max_width,
        forall|j: int| 0 <= j < row.column_data@.len() ==> #[trigger] cell_fits(row.column_data@[j], info_view(columns@)),
    ensures
        *final(f) == *old(f),
        final(buffer)@ == old(buffer)@ + row_text(*old(f), *row, info_view(columns@)),
{
    let ghost cols = info_view(columns@);
    let ghost rest = cols.skip(1);
    assert(within(cols[0], WIDTH_LIMIT));
    f.start_row(buffer, &row.name, columns[0].max_width);
    let ghost prefix = buffer@;
    let mut i: usize = 1;
    assert(rest.take(0) =~= Seq::<(Seq<char>, usize)>::empty());
    while i < columns.len()
        invariant
            1 <= i <= columns@.len(),
            cols == info_view(columns@),
            rest == cols.skip(1),
            widths_within(cols, WIDTH_LIMIT),
            row.wf(),
            forall|j: int| 0 <= j < row.column_data@.len() ==> #[trigger] cell_fits(row.column_data@[j], cols),
            *f == *old(f),
            buffer@ == prefix + cells_text(*old(f), *row, rest.take(i - 1)),
        decreases columns@.len() - i,
    {
        let column = &columns[i];
        assert(cols[i as int] == (column.name@, column.max_width));
        assert(within(cols[i as int], WIDTH_LIMIT));
        match find_key(&row.column_data, column.name.as_str()) {
            Some(j) => {
                let cell = &row.column_data[j];
                assert(cell.wf());
                assert(cell_fits(row.column_data@[j as int], cols));
                f.used_column(buffer, &cell.time_unit, &cell.pct, column.max_width);
            },
            None => {
                f.unused_column(buffer, column.max_width);
            },
        }
        assert(rest.take(i as int).drop_last() =~= rest.take(i - 1));
        assert(rest.take(i as int).last() == cols[i as int]);
        assert(buffer@ =~= prefix + cells_text(*old(f), *row, rest.take(i as int)));
        i = i + 1;
    }
    assert(rest.take(i - 1) =~= rest);
    f.end_row(buffer);
    assert(buffer@ =~= old(buffer)@ + row_text(*old(f), *row, cols));
}

fn render_table<F: Formatter>(f: &mut F, buffer: &mut String, table: &Table, config: &TablesConfig)
    requires
        table.wf(),
    ensures
        *final(f) == *old(f),
        final(buffer)@ == old(buffer)@ + table_text(*old(f), *table, *config),
{
    let columns = &table.columns.0;
    assert(info_view(columns@) =~= table.columns@);
    if columns.len() == 0 {
        assert(buffer@ =~= old(buffer)@ + table_text(*old(f), *table, *config));
        return;
    }
    let comment = config.table_comment(table.name.as_str());
    let comment_ref: Option<&String> = match &comment {
        Some(c) => Some(c),
        None => None,
    };
    assert(opt_text(comment_ref) == owned_text(config.comment_of(table.name@)));
    f.start_table(buffer, &table.name, comment_ref, columns);
    let ghost prefix = buffer@;
    let ghost rows = table.rows@;
    let mut i: usize = 0;
    assert(rows.take(0) =~= Seq::<Row>::empty());
    while i < table.rows.len()
        invariant
            i <= rows.len(),
            rows == table.rows@,
            table.wf(),
            info_view(columns@) == table.columns@,
            columns@.len() >= 1,
            *f == *old(f),
            buffer@ == prefix + rows_text(*old(f), rows.take(i as int), table.columns@),
        decreases rows.len() - i,
    {
        let row = &table.rows[i];
        assert(row.wf());
        assert(row.name@.len() <= table.columns@[0].1);
        assert forall|j: int| 0 <= j < row.column_data@.len() implies #[trigger] cell_fits(row.column_data@[j], info_view(columns@)) by {
            assert(cells_registered(rows, table.columns@));
            assert(cell_fits(rows[i as int].column_data@[j], table.columns@));
        }
        render_row(f, buffer, row, columns);
        assert(rows.take(i + 1).drop_last() =~= rows.take(i as int));
        assert(rows.take(i + 1).last() == *row);
        assert(buffer@ =~= prefix + rows_text(*old(f), rows.take(i + 1), table.columns@));
        i = i + 1;
    }
    assert(rows.take(i as int) =~= rows);
    f.end_table(buffer);
    assert(buffer@ =~= old(buffer)@ + table_text(*old(f), *table, *config));
}

impl CriterionTableData {
    /// Renders every table through the formatter `f`, with the comments of
    /// `config`, and returns the document.
    pub fn make_tables<F: Formatter>(&self, f: F, config: &TablesConfig) -> (r: String)
        requires
            self.wf(),
        ensures
            r@ == document(f, self.tables@, *config),
    {
        let mut f = f;
        let ghost f0 = f;
        let mut buffer = String::new();
        let tables = &self.tables;

        let mut names: Vec<String> = Vec::new();
        let mut k: usize = 0;
        while k < tables.len()
            invariant
                k <= tables@.len(),
                names@.len() == k,
                texts(names@) == table_names(tables@).take(k as int),
            decreases tables@.len() - k,
        {
            let ghost before = names@;
            let name = tables[k].name.clone();
            names.push(name);
            assert forall|j: int| 0 <= j < k + 1 implies #[trigger] texts(names@)[j] == table_names(tables@).take(k + 1)[j] by {
                if j < k {
                    assert(names@[j] == before[j]);
                    assert(texts(before)[j] == table_names(tables@).take(k as int)[j]);
                }
            }
            assert(texts(names@) =~= table_names(tables@).take(k + 1));
            k = k + 1;
        }
        assert(table_names(tables@).take(k as int) =~= table_names(tables@));
        let comment: Option<&String> = match &config.comments {
            Some(c) => Some(c),
            None => None,
        };
        assert(opt_text(comment) == owned_text(config.comments));
        f.start(&mut buffer, comment, &names);
        assert(buffer@ =~= f0.start_spec(owned_text(config.comments), table_names(tables@)));

        let ghost prefix = buffer@;
        let mut i: usize = 0;
        assert(tables@.take(0) =~= Seq::<Table>::empty());
        while i < tables.len()
            invariant
                i <= tables@.len(),
                self.wf(),
                tables == &self.tables,
                f == f0,
                buffer@ == prefix + tables_text(f0, tables@.take(i as int), *config),
            decreases tables@.len() - i,
        {
            let table = &tables[i];
            assert(table.wf());
            render_table(&mut f, &mut buffer, table, config);
            assert(tables@.take(i + 1).drop_last() =~= tables@.take(i as int));
            assert(tables@.take(i + 1).last() == *table);
            assert(buffer@ =~= prefix + tables_text(f0, tables@.take(i + 1), *config));
            i = i + 1;
        }
        assert(tables@.take(i as int) =~= tables@);
        f.end(&mut buffer);
        assert(buffer@ =~= document(f0, self.tables@, *config));
        buffer
    }
}

/// Renders the tables as GitHub Flavored Markdown, with the comments of
/// `config`.
pub fn process(data: &CriterionTableData, config: &TablesConfig) -> (r: String)
    requires
        data.wf(),
    ensures
        r@ == document(GFMFormatter, data.tables@, *config),
{
    data.make_tables(GFMFormatter, config)
}

} // verus!
