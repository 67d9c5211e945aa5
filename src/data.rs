//! The set of tables built from benchmark records, one record at a time.

use vstd::prelude::*;
use crate::error::BuildError;
use crate::ident::BenchmarkId;
use crate::keyed::{find_key, has_key, key_position, lemma_key_position, unique_keys, Keyed};
use crate::positions::{seen, successor, ColumnPosition};
use crate::table::{added, duplicate, Row, Table};
use crate::units::{Comparison, TimeUnit, TEXT_LIMIT};

verus! {

/// The baseline a new cell of row `row` in table `table` is compared with:
/// the measurement of that row's first cell, if the row exists.
pub open spec fn baseline_of(tables: Seq<Table>, table: Seq<char>, row: Seq<char>) -> Option<TimeUnit> {
    match key_position(tables, table) {
        Some(i) => match key_position(tables[i].rows@, row) {
            Some(j) => Some(tables[i].rows@[j].column_data@[0].time_unit),
            None => None,
        },
        None => None,
    }
}

/// The row `row` of table `table` already holds a cell of column `column`.
pub open spec fn duplicate_in(tables: Seq<Table>, table: Seq<char>, row: Seq<char>, column: Seq<char>) -> bool {
    match key_position(tables, table) {
        Some(i) => duplicate(tables[i].rows@, row, column),
        None => false,
    }
}

/// Fully processed benchmark data, ready for formatting: tables in the
/// order their names first appeared.
#[derive(Debug)]
pub struct CriterionTableData {
    pub tables: Vec<Table>,
}

impl CriterionTableData {
    pub open spec fn wf(&self) -> bool {
        &&& unique_keys(self.tables@)
        &&& forall|i: int| 0 <= i < self.tables@.len() ==> #[trigger] self.tables@[i].wf()
    }

    pub fn new() -> (r: CriterionTableData)
        ensures
            r.tables@.len() == 0,
            r.wf(),
    {
        CriterionTableData { tables: Vec::new() }
    }

    /// The position of the table named `name`, appended empty if new.
    fn get_table(&mut self, name: String) -> (r: usize)
        requires
            old(self).wf(),
        ensures
            final(self).wf(),
            match key_position(old(self).tables@, name@) {
                Some(i) => r == i && final(self).tables@ == old(self).tables@,
                None => r == old(self).tables@.len() && final(self).tables@.len() == old(self).tables@.len() + 1
                    && final(self).tables@.take(r as int) == old(self).tables@
                    && final(self).tables@[r as int].name == name
                    && final(self).tables@[r as int].columns@.len() == 0
                    && final(self).tables@[r as int].rows@.len() == 0,
            },
    {
        match find_key(&self.tables, name.as_str()) {
            Some(i) => i,
            None => {
                let ghost tables0 = self.tables@;
                let ghost n = name@;
                self.tables.push(Table::new(name));
                assert(self.tables@.take(tables0.len() as int) =~= tables0);
                assert(unique_keys(self.tables@)) by {
                    assert forall|a: int, b: int| 0 <= a < self.tables@.len() && 0 <= b < self.tables@.len() && a != b
                        implies #[trigger] self.tables@[a].key() != #[trigger] self.tables@[b].key() by {
                        if a < tables0.len() && b < tables0.len() {
                            assert(tables0[a].key() != tables0[b].key());
                        } else if a < tables0.len() {
                            assert(tables0[a].key() != n);
                        } else {
                            assert(tables0[b].key() != n);
                        }
                    }
                }
                assert forall|i: int| 0 <= i < self.tables@.len() implies #[trigger] self.tables@[i].wf() by {
                    if i < tables0.len() {
                        assert(self.tables@[i] == tables0[i]);
                    }
                }
                self.tables.len() - 1
            },
        }
    }

    /// The measurement that a new cell of `row_name` in `table_name` is
    /// compared with: the first cell of that row, if the row exists.
    pub fn baseline_time(&self, table_name: &str, row_name: &str) -> (r: Option<TimeUnit>)
        requires
            self.wf(),
        ensures
            r == baseline_of(self.tables@, table_name@, row_name@),
    {
        match find_key(&self.tables, table_name) {
            Some(i) => {
                let table = &self.tables[i];
                assert(table.wf());
                match find_key(&table.rows, row_name) {
                    Some(j) => {
                        assert(table.rows@[j as int].wf());
                        assert(table.rows@[j as int].column_data@.len() > 0);
                        table.rows[j].first_column_time()
                    },
                    None => None,
                }
            },
            None => None,
        }
    }

    /// Records one benchmark: counts its row name in `positions`, finds or
    /// creates its table, and adds the cell there, compared by `compare`
    /// unless it is the first of its row. A second record for the same
    /// table, row and column is an error and leaves the tables as they were.
    pub fn add_benchmark(
        &mut self,
        positions: &mut ColumnPosition,
        id: BenchmarkId,
        time_unit: TimeUnit,
        compare: Comparison,
    ) -> (r: Result<(), BuildError>)
        requires
            old(self).wf(),
            id.column@.len() <= TEXT_LIMIT,
            id.row@.len() <= TEXT_LIMIT,
            time_unit.wf(),
            compare.wf(),
        ensures
            final(positions)@ == old(positions)@.insert(id.row@, successor(seen(old(positions)@, id.row@))),
            duplicate_in(old(self).tables@, id.table@, id.row@, id.column@) ==> (r matches Err(
                BuildError::DuplicateColumn(n)) && n@ == id.column@ && final(self).tables@ == old(self).tables@),
            !duplicate_in(old(self).tables@, id.table@, id.row@, id.column@) ==> r is Ok && final(self).wf()
                && recorded(old(self).tables@, final(self).tables@, successor(seen(old(positions)@, id.row@)),
                    id, time_unit, compare),
    {
        let BenchmarkId { table, column, row } = id;
        let ghost tables0 = self.tables@;
        let ti = self.get_table(table);
        let idx = positions.next_idx(row.clone());
        let ghost tables1 = self.tables@;
        assert(tables1[ti as int].wf());
        let target = &mut self.tables[ti];
        let res = target.add_column_data(idx, column, row, time_unit, compare);
        proof {
            let tables2 = self.tables@;
            if res is Ok {
                assert(unique_keys(tables2)) by {
                    assert forall|a: int, b: int| 0 <= a < tables2.len() && 0 <= b < tables2.len() && a != b
                        implies #[trigger] tables2[a].key() != #[trigger] tables2[b].key() by {
                        assert(tables1[a].key() != tables1[b].key());
                    }
                }
                assert forall|i: int| 0 <= i < tables2.len() implies #[trigger] tables2[i].wf() by {
                    if i != ti {
                        assert(tables2[i] == tables1[i]);
                    }
                }
                if key_position(tables0, id.table@) is None {
                    assert(tables2.take(tables0.len() as int) =~= tables0) by {
                        assert forall|j: int| 0 <= j < tables0.len() implies tables2[j] == tables0[j] by {
                            assert(tables1.take(ti as int)[j] == tables1[j]);
                        }
                    }
                    assert(tables1[ti as int].columns@ =~= Seq::<(Seq<char>, usize)>::empty());
                    assert(tables1[ti as int].rows@ =~= Seq::<crate::table::Row>::empty());
                }
            } else {
                if key_position(tables0, id.table@) is None {
                    assert(!duplicate(tables1[ti as int].rows@, id.row@, id.column@));
                }
                assert(tables1 == tables0);
                assert(self.tables@ =~= tables0);
            }
        }
        res
    }
}

/// `tables1` is `tables0` with one benchmark recorded: in the table named
/// by `id` (appended last if new), with the column position `idx`.
pub open spec fn recorded(
    tables0: Seq<Table>,
    tables1: Seq<Table>,
    idx: usize,
    id: BenchmarkId,
    time_unit: TimeUnit,
    compare: Comparison,
) -> bool {
    match key_position(tables0, id.table@) {
        Some(i) => {
            &&& tables1.len() == tables0.len()
            &&& forall|j: int| 0 <= j < tables0.len() && j != i ==> #[trigger] tables1[j] == tables0[j]
            &&& tables1[i].name == tables0[i].name
            &&& added(tables0[i].columns@, tables0[i].rows@, tables1[i].columns@, tables1[i].rows@, idx,
                id.column@, id.row@, time_unit, compare)
        },
        None => {
            &&& tables1.len() == tables0.len() + 1
            &&& tables1.take(tables0.len() as int) == tables0
            &&& tables1.last().name@ == id.table@
            &&& added(Seq::empty(), Seq::empty(), tables1.last().columns@, tables1.last().rows@, idx,
                id.column@, id.row@, time_unit, compare)
        },
    }
}

/// Once a benchmark is recorded, a second one with the same table, column
/// and row is a duplicate, which [`CriterionTableData::add_benchmark`]
/// refuses with [`BuildError::DuplicateColumn`].
pub proof fn lemma_same_id_twice_is_duplicate(
    tables0: Seq<Table>,
    after: CriterionTableData,
    idx: usize,
    id: BenchmarkId,
    time_unit: TimeUnit,
    compare: Comparison,
)
    requires
        after.wf(),
        recorded(tables0, after.tables@, idx, id, time_unit, compare),
    ensures
        duplicate_in(after.tables@, id.table@, id.row@, id.column@),
{
    let tables1 = after.tables@;
    let ti: int = match key_position(tables0, id.table@) {
        Some(i) => i,
        None => tables0.len() as int,
    };
    assert(tables1[ti].name@ == id.table@) by {
        if let Some(i) = key_position(tables0, id.table@) {
            assert(has_key(tables0, id.table@));
            assert(tables0[i].key() == id.table@);
        }
    }
    lemma_key_position(tables1, ti);
    let rows0: Seq<Row> = if ti < tables0.len() { tables0[ti].rows@ } else { Seq::empty() };
    let rows1 = tables1[ti].rows@;
    assert(tables1[ti].wf());
    let ri: int = match key_position(rows0, id.row@) {
        Some(r) => r,
        None => rows0.len() as int,
    };
    assert(rows1[ri].name@ == id.row@ && rows1[ri].column_data@.last().name@ == id.column@) by {
        if let Some(r) = key_position(rows0, id.row@) {
            assert(has_key(rows0, id.row@));
            assert(rows0[r].key() == id.row@);
        } else {
            assert(rows1.last() == rows1[ri]);
        }
    }
    lemma_key_position(rows1, ri);
    let cells = rows1[ri].column_data@;
    assert(cells[cells.len() - 1].key() == id.column@);
    assert(has_key(cells, id.column@));
}

} // verus!
