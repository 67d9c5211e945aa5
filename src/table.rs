//! Rows, tables and the insertion rule that keeps a table's widths in step
//! with its rows.

use vstd::prelude::*;
use crate::columns::{ColumnInfoVec, distinct_names, lemma_widened, max_usize, names_column, widened, within, widths_within};
use crate::error::BuildError;
use crate::keyed::{find_key, has_key, key_position, lemma_key_position, unique_keys, Keyed};
use crate::text::char_count;
use crate::units::{Comparison, TimeUnit, TEXT_LIMIT};

verus! {

/// Largest column width that well-formed tables record: a measurement and a
/// comparison side by side, or a name.
pub const WIDTH_LIMIT: usize = 2 * TEXT_LIMIT + 16;

/// One cell of a row: a column name, its measurement and its comparison
/// with the row's baseline.
#[derive(Debug)]
pub struct Column {
    pub name: String,
    pub time_unit: TimeUnit,
    pub pct: Comparison,
}

impl Keyed for Column {
    open spec fn key(&self) -> Seq<char> {
        self.name@
    }

    fn key_str(&self) -> (r: &str) {
        self.name.as_str()
    }
}

impl Column {
    pub open spec fn wf(&self) -> bool {
        &&& self.name@.len() <= TEXT_LIMIT
        &&& self.time_unit.wf()
        &&& self.pct.wf()
    }

    /// Display width: the measurement's text and the comparison's text.
    pub open spec fn width_spec(&self) -> nat {
        self.time_unit.text_spec().len() + self.pct.text_spec().len()
    }

    /// A cell; without a comparison it is its row's baseline.
    pub fn new(name: String, time_unit: TimeUnit, compare: Option<Comparison>) -> (r: Column)
        ensures
            r.name == name,
            r.time_unit == time_unit,
            match compare {
                Some(c) => r.pct == c,
                None => r.pct.is_baseline() && r.pct.wf(),
            },
    {
        let pct = match compare {
            Some(c) => c,
            None => Comparison::baseline(),
        };
        Column { name, time_unit, pct }
    }

    /// Display width of the cell's data; markup is the formatter's concern.
    pub fn width(&self) -> (r: usize)
        requires
            self.wf(),
        ensures
            r == self.width_spec(),
            r <= 2 * TEXT_LIMIT + 11,
    {
        self.time_unit.width() + self.pct.width()
    }
}

/// `cells` is `before` with one cell appended: `name`, `time_unit`, and
/// `compare`, or the baseline comparison when `before` is empty.
pub open spec fn appended_cell(
    before: Seq<Column>,
    cells: Seq<Column>,
    name: Seq<char>,
    time_unit: TimeUnit,
    compare: Comparison,
) -> bool {
    &&& cells.len() == before.len() + 1
    &&& cells.take(before.len() as int) == before
    &&& cells.last().name@ == name
    &&& cells.last().time_unit == time_unit
    &&& before.len() == 0 ==> cells.last().pct.is_baseline()
    &&& before.len() > 0 ==> cells.last().pct == compare
}

/// A row: its name (empty when identifiers have no row segment) and its
/// cells in insertion order.
#[derive(Debug)]
pub struct Row {
    pub name: String,
    pub column_data: Vec<Column>,
}

impl Keyed for Row {
    open spec fn key(&self) -> Seq<char> {
        self.name@
    }

    fn key_str(&self) -> (r: &str) {
        self.name.as_str()
    }
}

impl Row {
    /// Names are short enough, cells are well formed and named apart, and the
    /// first cell is the baseline.
    pub open spec fn wf(&self) -> bool {
        &&& self.name@.len() <= TEXT_LIMIT
        &&& unique_keys(self.column_data@)
        &&& forall|j: int| 0 <= j < self.column_data@.len() ==> #[trigger] self.column_data@[j].wf()
        &&& self.column_data@.len() > 0 ==> self.column_data@[0].pct.is_baseline()
    }

    pub fn new(name: String) -> (r: Row)
        ensures
            r.name == name,
            r.column_data@.len() == 0,
    {
        Row { name, column_data: Vec::new() }
    }

    /// The measurement of the row's first cell: the baseline of the others.
    pub fn first_column_time(&self) -> (r: Option<TimeUnit>)
        ensures
            self.column_data@.len() == 0 ==> r is None,
            self.column_data@.len() > 0 ==> r == Some(self.column_data@[0].time_unit),
    {
        if self.column_data.len() == 0 {
            None
        } else {
            Some(self.column_data[0].time_unit.clone())
        }
    }

    /// Appends a cell named `name`; a name the row already holds is an error.
    /// On success, returns the new cell's display width.
    pub fn add_column(&mut self, name: String, time_unit: TimeUnit, compare: Comparison) -> (r: Result<usize, BuildError>)
        requires
            old(self).wf(),
            name@.len() <= TEXT_LIMIT,
            time_unit.wf(),
            compare.wf(),
        ensures
            has_key(old(self).column_data@, name@) ==> (r matches Err(BuildError::DuplicateColumn(n)) && n@ == name@
                && *final(self) == *old(self)),
            !has_key(old(self).column_data@, name@) ==> r is Ok && final(self).wf() && final(self).name == old(self).name
                && appended_cell(old(self).column_data@, final(self).column_data@, name@, time_unit, compare)
                && r->Ok_0 == final(self).column_data@.last().width_spec() && r->Ok_0 <= 2 * TEXT_LIMIT + 11,
    {
        if let Some(_) = find_key(&self.column_data, name.as_str()) {
            return Err(BuildError::DuplicateColumn(name));
        }
        let ghost before = self.column_data@;
        let compare = if self.column_data.len() == 0 { None } else { Some(compare) };
        let cell = Column::new(name, time_unit, compare);
        let width = cell.width();
        self.column_data.push(cell);
        assert(self.column_data@.take(before.len() as int) =~= before);
        assert(unique_keys(self.column_data@)) by {
            assert forall|a: int, b: int| 0 <= a < self.column_data@.len() && 0 <= b < self.column_data@.len() && a != b
                implies #[trigger] self.column_data@[a].key() != #[trigger] self.column_data@[b].key() by {
                if a < before.len() && b < before.len() {
                    assert(before[a].key() != before[b].key());
                }
            }
        }
        assert(forall|j: int| 0 <= j < self.column_data@.len() ==> #[trigger] self.column_data@[j].wf()) by {
            assert forall|j: int| 0 <= j < self.column_data@.len() implies #[trigger] self.column_data@[j].wf() by {
                if j < before.len() {
                    assert(self.column_data@[j] == before[j]);
                }
            }
        }
        Ok(width)
    }
}

/// Row names, in order.
pub open spec fn row_names(rows: Seq<Row>) -> Seq<Seq<char>> {
    rows.map_values(|r: Row| r.name@)
}

/// Length of the longest of `names`; zero when there are none.
pub open spec fn longest(names: Seq<Seq<char>>) -> nat
    decreases names.len(),
{
    if names.len() == 0 {
        0
    } else {
        let l = longest(names.drop_last());
        if names.last().len() > l { names.last().len() } else { l }
    }
}

/// Some cell of some row has an empty column name, the label column's own.
pub open spec fn has_unnamed_cell(rows: Seq<Row>) -> bool {
    exists|i: int, j: int| 0 <= i < rows.len() && 0 <= j < rows[i].column_data@.len()
        && #[trigger] rows[i].column_data@[j].name@.len() == 0
}

/// Every cell of every row has a registry entry of its name, and every entry
/// of that name is at least as wide as the cell's data.
pub open spec fn cells_registered(rows: Seq<Row>, columns: Seq<(Seq<char>, usize)>) -> bool {
    forall|i: int, j: int| 0 <= i < rows.len() && 0 <= j < rows[i].column_data@.len()
        ==> #[trigger] cell_fits(rows[i].column_data@[j], columns)
}

pub open spec fn cell_fits(cell: Column, columns: Seq<(Seq<char>, usize)>) -> bool {
    &&& names_column(columns, cell.name@)
    &&& forall|k: int| 0 <= k < columns.len() && #[trigger] columns[k].0 == cell.name@
        ==> columns[k].1 >= cell.width_spec()
}

/// Each name is at most as long as the longest.
pub proof fn lemma_longest(names: Seq<Seq<char>>)
    ensures
        forall|i: int| 0 <= i < names.len() ==> #[trigger] names[i].len() <= longest(names),
    decreases names.len(),
{
    if names.len() > 0 {
        lemma_longest(names.drop_last());
        assert forall|i: int| 0 <= i < names.len() implies #[trigger] names[i].len() <= longest(names) by {
            if i < names.len() - 1 {
                assert(names[i] == names.drop_last()[i]);
            }
        }
    }
}

/// Some name is exactly as long as the longest, when there are names.
pub proof fn lemma_longest_attained(names: Seq<Seq<char>>)
    requires
        names.len() > 0,
    ensures
        exists|i: int| 0 <= i < names.len() && #[trigger] names[i].len() == longest(names),
    decreases names.len(),
{
    let last = names.len() - 1;
    if names.len() > 1 && names.last().len() <= longest(names.drop_last()) {
        lemma_longest_attained(names.drop_last());
        let i = choose|i: int| 0 <= i < names.drop_last().len() && #[trigger] names.drop_last()[i].len() == longest(names.drop_last());
        assert(names[i] == names.drop_last()[i]);
    } else {
        if names.len() == 1 {
            assert(longest(names.drop_last()) == 0);
        }
        assert(names[last].len() == longest(names));
    }
}

/// The row named `row` already holds a cell named `column`.
pub open spec fn duplicate(rows: Seq<Row>, row: Seq<char>, column: Seq<char>) -> bool {
    match key_position(rows, row) {
        Some(i) => has_key(rows[i].column_data@, column),
        None => false,
    }
}

/// Registry width recorded for a cell: its data or its name, the wider.
pub open spec fn entry_width(cell: Column) -> usize {
    if cell.width_spec() >= cell.name@.len() { cell.width_spec() as usize } else { cell.name@.len() as usize }
}

/// Registry `cols1` and rows `rows1` are `cols0` and `rows0` with one cell
/// recorded: in the row named `row` (appended last if new), under the column
/// `column`, whose registry entry is inserted at `idx` if new.
pub open spec fn added(
    cols0: Seq<(Seq<char>, usize)>,
    rows0: Seq<Row>,
    cols1: Seq<(Seq<char>, usize)>,
    rows1: Seq<Row>,
    idx: usize,
    column: Seq<char>,
    row: Seq<char>,
    time_unit: TimeUnit,
    compare: Comparison,
) -> bool {
    match key_position(rows0, row) {
        Some(i) => {
            &&& rows1.len() == rows0.len()
            &&& forall|j: int| 0 <= j < rows0.len() && j != i ==> #[trigger] rows1[j] == rows0[j]
            &&& rows1[i].name == rows0[i].name
            &&& appended_cell(rows0[i].column_data@, rows1[i].column_data@, column, time_unit, compare)
            &&& cols1 == widened(
                widened(cols0, 0, Seq::empty(), row.len() as usize),
                idx as int,
                column,
                entry_width(rows1[i].column_data@.last()),
            )
        },
        None => {
            &&& rows1.len() == rows0.len() + 1
            &&& rows1.take(rows0.len() as int) == rows0
            &&& rows1.last().name@ == row
            &&& appended_cell(Seq::empty(), rows1.last().column_data@, column, time_unit, compare)
            &&& cols1 == widened(
                widened(cols0, 0, Seq::empty(), row.len() as usize),
                idx as int,
                column,
                entry_width(rows1.last().column_data@.last()),
            )
        },
    }
}

/// In a well-formed table every column is at least as wide as its name and
/// as the data (measurement and comparison) of every cell recorded under it.
pub proof fn lemma_column_width_covers(table: Table)
    requires
        table.wf(),
    ensures
        forall|k: int| 0 <= k < table.columns@.len() ==> #[trigger] table.columns@[k].1 >= table.columns@[k].0.len(),
        forall|k: int, i: int, j: int|
            0 <= k < table.columns@.len() && 0 <= i < table.rows@.len() && 0 <= j < table.rows@[i].column_data@.len()
                && #[trigger] table.rows@[i].column_data@[j].name@ == #[trigger] table.columns@[k].0
                ==> table.columns@[k].1 >= table.rows@[i].column_data@[j].width_spec(),
{
    let cols = table.columns@;
    assert forall|k: int| 0 <= k < cols.len() implies #[trigger] cols[k].1 >= cols[k].0.len() by {
        assert(within(cols[k], WIDTH_LIMIT));
    }
    assert forall|k: int, i: int, j: int|
        0 <= k < cols.len() && 0 <= i < table.rows@.len() && 0 <= j < table.rows@[i].column_data@.len()
            && #[trigger] table.rows@[i].column_data@[j].name@ == #[trigger] cols[k].0
        implies cols[k].1 >= table.rows@[i].column_data@[j].width_spec() by {
        assert(cell_fits(table.rows@[i].column_data@[j], cols));
    }
}

/// In a well-formed table whose cells all have named columns, the label
/// column is exactly as wide as the longest row name: every row name fits,
/// and one fills it.
pub proof fn lemma_label_width_is_longest_row_name(table: Table)
    requires
        table.wf(),
        table.rows@.len() > 0,
        !has_unnamed_cell(table.rows@),
    ensures
        table.columns@[0].1 == longest(row_names(table.rows@)),
        forall|i: int| 0 <= i < table.rows@.len() ==> #[trigger] table.rows@[i].name@.len() <= table.columns@[0].1,
        exists|i: int| 0 <= i < table.rows@.len() && #[trigger] table.rows@[i].name@.len() == table.columns@[0].1,
{
    let names = row_names(table.rows@);
    lemma_longest_attained(names);
    let i = choose|i: int| 0 <= i < names.len() && #[trigger] names[i].len() == longest(names);
    assert(table.rows@[i].name@ == names[i]);
}

/// A table: its name, its width registry (the label column first), and its
/// rows in insertion order.
#[derive(Debug)]
pub struct Table {
    pub name: String,
    pub columns: ColumnInfoVec,
    pub rows: Vec<Row>,
}

impl Keyed for Table {
    open spec fn key(&self) -> Seq<char> {
        self.name@
    }

    fn key_str(&self) -> (r: &str) {
        self.name.as_str()
    }
}

impl Table {
    /// The registry and the rows agree: the label column (unnamed, first) is
    /// as wide as the longest row name, every column is as wide as its name
    /// and as each cell of it, and names are unique.
    pub open spec fn wf(&self) -> bool {
        let cols = self.columns@;
        let rows = self.rows@;
        &&& distinct_names(cols)
        &&& unique_keys(rows)
        &&& forall|i: int| 0 <= i < rows.len() ==> #[trigger] rows[i].wf() && rows[i].column_data@.len() > 0
        &&& (cols.len() == 0) == (rows.len() == 0)
        &&& cols.len() > 0 ==> cols[0].0.len() == 0
        &&& widths_within(cols, WIDTH_LIMIT)
        &&& forall|i: int| 0 <= i < rows.len() ==> #[trigger] rows[i].name@.len() <= cols[0].1
        &&& cells_registered(rows, cols)
        &&& cols.len() > 0 && !has_unnamed_cell(rows) ==> cols[0].1 == longest(row_names(rows))
    }

    pub fn new(name: String) -> (r: Table)
        ensures
            r.name == name,
            r.columns@.len() == 0,
            r.rows@.len() == 0,
            r.wf(),
    {
        Table { name, columns: ColumnInfoVec::new(), rows: Vec::new() }
    }

    /// The position of the row named `name`, appended empty if new.
    fn get_row(&mut self, name: String) -> (r: usize)
        requires
            unique_keys(old(self).rows@),
        ensures
            final(self).name == old(self).name,
            final(self).columns == old(self).columns,
            match key_position(old(self).rows@, name@) {
                Some(i) => r == i && final(self).rows@ == old(self).rows@,
                None => r == old(self).rows@.len() && final(self).rows@.len() == old(self).rows@.len() + 1
                    && final(self).rows@.take(r as int) == old(self).rows@
                    && final(self).rows@[r as int].name == name
                    && final(self).rows@[r as int].column_data@.len() == 0,
            },
    {
        match find_key(&self.rows, name.as_str()) {
            Some(i) => i,
            None => {
                let ghost rows0 = self.rows@;
                self.rows.push(Row::new(name));
                assert(self.rows@.take(rows0.len() as int) =~= rows0);
                self.rows.len() - 1
            },
        }
    }

    /// Records a measurement of `column_name` in the row `row_name`: the
    /// label column widens to the row name, the row gains the cell (an error
    /// if it holds the column already), and the column's registry entry
    /// widens to the cell, or is inserted at `idx` if new.
    pub fn add_column_data(
        &mut self,
        idx: usize,
        column_name: String,
        row_name: String,
        time_unit: TimeUnit,
        compare: Comparison,
    ) -> (r: Result<(), BuildError>)
        requires
            old(self).wf(),
            idx >= 1,
            column_name@.len() <= TEXT_LIMIT,
            row_name@.len() <= TEXT_LIMIT,
            time_unit.wf(),
            compare.wf(),
        ensures
            duplicate(old(self).rows@, row_name@, column_name@) ==> (r matches Err(BuildError::DuplicateColumn(n))
                && n@ == column_name@ && *final(self) == *old(self)),
            !duplicate(old(self).rows@, row_name@, column_name@) ==> r is Ok && final(self).wf()
                && final(self).name == old(self).name
                && added(old(self).columns@, old(self).rows@, final(self).columns@, final(self).rows@, idx,
                    column_name@, row_name@, time_unit, compare),
    {
        let ghost before = *self;
        let ri = find_key(&self.rows, row_name.as_str());
        if let Some(i) = ri {
            assert(self.rows@[i as int].wf());
            if let Some(_) = find_key(&self.rows[i].column_data, column_name.as_str()) {
                return Err(BuildError::DuplicateColumn(column_name));
            }
        }
        let ghost row = row_name@;
        let ghost column = column_name@;
        let label_width = char_count(row_name.as_str());
        proof {
            if self.columns@.len() > 0 {
                assert(self.columns@[0].0 =~= Seq::<char>::empty());
            }
            lemma_widened(self.columns@, 0, Seq::empty(), label_width, WIDTH_LIMIT);
        }
        self.columns.update_column_info(0, String::new(), label_width);
        let ghost cols1 = self.columns@;
        let i = self.get_row(row_name);
        proof {
            if ri is None {
                assert(self.rows@[i as int] == self.rows@.take(i as int + 1).last());
            }
            assert(self.rows@[i as int].wf());
        }
        let name_width = char_count(column_name.as_str());
        let ghost rows_mid = self.rows@;
        let row_ref = &mut self.rows[i];
        let res = row_ref.add_column(column_name.clone(), time_unit, compare);
        match res {
            Ok(data_width) => {
                let width = if data_width >= name_width { data_width } else { name_width };
                proof {
                    lemma_widened(cols1, idx as int, column, width, WIDTH_LIMIT);
                }
                self.columns.update_column_info(idx, column_name, width);
                proof {
                    let cols0 = before.columns@;
                    let cols2 = self.columns@;
                    let rows0 = before.rows@;
                    let rows1 = self.rows@;
                    let cell = rows1[i as int].column_data@.last();
                    assert(width == entry_width(cell));
                    assert(rows1.len() > 0 && cols1.len() > 0 && cols2.len() > 0);
                    // rows: unchanged but for row `i`
                    assert forall|j: int| 0 <= j < rows1.len() && j != i implies #[trigger] rows1[j] == rows_mid[j] by {}
                    assert(forall|j: int| 0 <= j < rows0.len() ==> #[trigger] rows_mid[j] == rows0[j]) by {
                        if ri is None {
                            assert forall|j: int| 0 <= j < rows0.len() implies #[trigger] rows_mid[j] == rows0[j] by {
                                assert(rows_mid.take(rows0.len() as int)[j] == rows_mid[j]);
                            }
                        }
                    }
                    assert(rows1[i as int].name@ == row) by {
                        if let Some(k) = ri {
                            assert(rows0[k as int].key() == row);
                        }
                    }
                    assert(unique_keys(rows1)) by {
                        assert forall|a: int, b: int| 0 <= a < rows1.len() && 0 <= b < rows1.len() && a != b
                            implies #[trigger] rows1[a].key() != #[trigger] rows1[b].key() by {
                            if a != i && b != i {
                                assert(rows0[a].key() != rows0[b].key());
                            } else if a == i {
                                assert(rows1[b] == rows0[b]);
                                if ri is None {
                                    assert(!has_key(rows0, row));
                                    assert(rows0[b].key() != row);
                                } else {
                                    assert(rows0[b].key() != rows0[i as int].key());
                                }
                            } else {
                                assert(rows1[a] == rows0[a]);
                                if ri is None {
                                    assert(rows0[a].key() != row);
                                } else {
                                    assert(rows0[a].key() != rows0[i as int].key());
                                }
                            }
                        }
                    }
                    assert(rows1[i as int].wf());
                    assert(rows1[i as int].column_data@.len() > 0);
                    assert forall|j: int| 0 <= j < rows1.len() implies #[trigger] rows1[j].wf() && rows1[j].column_data@.len() > 0 by {
                        if j != i {
                            assert(rows1[j] == rows0[j]);
                            assert(rows0[j].wf());
                        }
                    }
                    // the label column stays first and widens to the row name
                    assert(cols2[0].0.len() == 0);
                    assert(cols2[0].1 >= cols1[0].1);
                    assert(cols1[0].1 >= label_width);
                    assert(cols0.len() > 0 ==> cols1[0].1 >= cols0[0].1);
                    assert forall|j: int| 0 <= j < rows1.len() implies #[trigger] rows1[j].name@.len() <= cols2[0].1 by {
                        if j != i {
                            assert(rows1[j] == rows0[j]);
                            assert(rows0[j].name@.len() <= cols0[0].1);
                        }
                    }
                    // every cell is registered, old ones through both widenings
                    assert forall|a: int, b: int| 0 <= a < rows1.len() && 0 <= b < rows1[a].column_data@.len()
                        implies #[trigger] cell_fits(rows1[a].column_data@[b], cols2) by {
                        let c = rows1[a].column_data@[b];
                        if a == i && b == rows1[a].column_data@.len() - 1 {
                            assert(c == cell);
                        } else {
                            let b0 = b;
                            assert(c == rows0[a].column_data@[b0]) by {
                                if a == i {
                                    assert(rows1[a].column_data@.take(rows_mid[a].column_data@.len() as int)[b] == c);
                                } else {
                                    assert(rows1[a] == rows0[a]);
                                }
                            }
                            assert(cell_fits(rows0[a].column_data@[b0], cols0));
                            let k0 = choose|k: int| 0 <= k < cols0.len() && #[trigger] cols0[k].0 == c.name@;
                            assert(names_column(cols1, c.name@));
                            let k1 = choose|k: int| 0 <= k < cols1.len() && #[trigger] cols1[k].0 == c.name@;
                            assert(cols1[k1].1 >= cols0[k0].1);
                            assert forall|k: int| 0 <= k < cols2.len() && #[trigger] cols2[k].0 == c.name@
                                implies cols2[k].1 >= c.width_spec() by {
                                assert(cols2[k].1 >= cols1[k1].1);
                            }
                        }
                    }
                    // the label column is exactly as wide as the longest row name
                    if !has_unnamed_cell(rows1) {
                        assert(column.len() > 0) by {
                            assert(rows1[i as int].column_data@[rows1[i as int].column_data@.len() - 1].name@ == column);
                        }
                        assert(cols2[0].1 == cols1[0].1);
                        lemma_longest(row_names(rows0));
                        if cols0.len() > 0 {
                            assert(!has_unnamed_cell(rows0)) by {
                                if has_unnamed_cell(rows0) {
                                    let (a, b) = choose|a: int, b: int| 0 <= a < rows0.len() && 0 <= b < rows0[a].column_data@.len()
                                        && #[trigger] rows0[a].column_data@[b].name@.len() == 0;
                                    if a == i {
                                        assert(rows1[a].column_data@.take(rows_mid[a].column_data@.len() as int)[b]
                                            == rows1[a].column_data@[b]);
                                    } else {
                                        assert(rows1[a] == rows0[a]);
                                    }
                                    assert(rows1[a].column_data@[b].name@.len() == 0);
                                }
                            }
                            assert(cols0[0].1 == longest(row_names(rows0)));
                        }
                        if ri is None {
                            assert(row_names(rows1).drop_last() =~= row_names(rows0));
                        } else {
                            assert(row_names(rows1) =~= row_names(rows0));
                            assert(row_names(rows0)[i as int].len() == label_width);
                        }
                    }
                    assert(widths_within(cols1, WIDTH_LIMIT));
                    assert(column.len() <= width <= WIDTH_LIMIT);
                    assert(widths_within(cols2, WIDTH_LIMIT));
                    assert(cells_registered(rows1, cols2));
                    assert(self.wf());
                    if ri is None {
                        assert(rows1.take(rows0.len() as int) =~= rows0);
                        assert(rows_mid[i as int].column_data@ =~= Seq::<Column>::empty());
                        assert(rows1.last() == rows1[i as int]);
                    }
                }
                Ok(())
            },
            Err(e) => Err(e),
        }
    }
}

} // verus!
