//! The width registry of a table: one entry per column, in display order,
//! each with the largest display width seen for it.

use vstd::prelude::*;
use crate::keyed::{find_key, Keyed, has_key, unique_keys};

verus! {

pub open spec fn max_usize(a: usize, b: usize) -> usize {
    if a >= b { a } else { b }
}

/// Column maximum width data.
#[derive(Debug)]
pub struct ColumnInfo {
    /// The column's name; the label column's is empty.
    pub name: String,
    /// The largest display width, in characters, seen in this column.
    pub max_width: usize,
}

impl Keyed for ColumnInfo {
    open spec fn key(&self) -> Seq<char> {
        self.name@
    }

    fn key_str(&self) -> (r: &str) {
        self.name.as_str()
    }
}

impl ColumnInfo {
    /// Creates an entry with an initial width.
    pub fn new(name: String, width: usize) -> (r: ColumnInfo)
        ensures
            r.name == name,
            r.max_width == width,
    {
        ColumnInfo { name, max_width: width }
    }

    fn update_info(&mut self, width: usize)
        ensures
            final(self).name == old(self).name,
            final(self).max_width == max_usize(old(self).max_width, width),
    {
        if width > self.max_width {
            self.max_width = width;
        }
    }
}

/// Some entry is named `name`.
pub open spec fn names_column(v: Seq<(Seq<char>, usize)>, name: Seq<char>) -> bool {
    exists|i: int| 0 <= i < v.len() && #[trigger] v[i].0 == name
}

/// No two entries share a name.
pub open spec fn distinct_names(v: Seq<(Seq<char>, usize)>) -> bool {
    forall|i: int, j: int| 0 <= i < v.len() && 0 <= j < v.len() && i != j ==> #[trigger] v[i].0 != #[trigger] v[j].0
}

/// The registry after a width is recorded for `name`: an existing entry
/// keeps its place and takes the larger width; a new one is inserted at
/// `idx`, or last when `idx` is past the end.
pub open spec fn widened(v: Seq<(Seq<char>, usize)>, idx: int, name: Seq<char>, width: usize) -> Seq<(Seq<char>, usize)> {
    if names_column(v, name) {
        let i = choose|i: int| 0 <= i < v.len() && #[trigger] v[i].0 == name;
        v.update(i, (name, max_usize(v[i].1, width)))
    } else {
        v.insert(if idx <= v.len() { idx } else { v.len() as int }, (name, width))
    }
}

/// The entry is at least as wide as its name and at most `limit`.
pub open spec fn within(entry: (Seq<char>, usize), limit: usize) -> bool {
    entry.0.len() <= entry.1 && entry.1 <= limit
}

/// Every entry is at least as wide as its name and at most `limit`.
pub open spec fn widths_within(v: Seq<(Seq<char>, usize)>, limit: usize) -> bool {
    forall|k: int| 0 <= k < v.len() ==> #[trigger] within(v[k], limit)
}

/// What recording a width keeps and adds: names stay, widths only grow, the
/// new name is present and at least as wide as recorded, and the first entry
/// keeps its place unless the registry was empty.
pub open spec fn widened_facts(v: Seq<(Seq<char>, usize)>, idx: int, name: Seq<char>, width: usize, limit: usize) -> bool {
    let w = widened(v, idx, name, width);
    &&& w.len() == v.len() || w.len() == v.len() + 1
    &&& names_column(w, name)
    &&& forall|n: Seq<char>| names_column(v, n) ==> names_column(w, n)
    &&& forall|k: int, j: int| 0 <= k < v.len() && 0 <= j < w.len() && #[trigger] v[k].0 == #[trigger] w[j].0
        ==> w[j].1 >= v[k].1
    &&& forall|j: int| 0 <= j < w.len() && #[trigger] w[j].0 == name ==> w[j].1 >= width
    &&& widths_within(v, limit) && name.len() <= width <= limit ==> widths_within(w, limit)
    &&& v.len() == 0 ==> w == seq![(name, width)]
    &&& v.len() > 0 ==> w[0].0 == v[0].0
    &&& v.len() > 0 && v[0].0 != name ==> w[0].1 == v[0].1
    &&& v.len() > 0 && v[0].0 == name ==> w[0].1 == max_usize(v[0].1, width)
}

proof fn lemma_widened_existing(v: Seq<(Seq<char>, usize)>, idx: int, name: Seq<char>, width: usize, limit: usize)
    requires
        distinct_names(v),
        names_column(v, name),
    ensures
        widened_facts(v, idx, name, width, limit),
{
    let w = widened(v, idx, name, width);
    let i = choose|i: int| 0 <= i < v.len() && #[trigger] v[i].0 == name;
    assert(w == v.update(i, (name, max_usize(v[i].1, width))));
    assert(w[i].0 == name);
    assert forall|n: Seq<char>| names_column(v, n) implies names_column(w, n) by {
        let k = choose|k: int| 0 <= k < v.len() && #[trigger] v[k].0 == n;
        assert(w[k].0 == n);
    }
    assert forall|k: int, j: int| 0 <= k < v.len() && 0 <= j < w.len() && #[trigger] v[k].0 == #[trigger] w[j].0
        implies w[j].1 >= v[k].1 by {
        if j == i {
            assert(v[k].0 == v[i].0);
            assert(k == i);
        } else {
            assert(v[j].0 == v[k].0);
            assert(k == j);
        }
    }
    assert forall|j: int| 0 <= j < w.len() && #[trigger] w[j].0 == name implies w[j].1 >= width by {
        if j != i {
            assert(w[j] == v[j]);
            assert(v[j].0 == v[i].0);
        }
    }
    if widths_within(v, limit) && name.len() <= width <= limit {
        assert forall|j: int| 0 <= j < w.len() implies #[trigger] within(w[j], limit) by {
            if j != i {
                assert(w[j] == v[j]);
                assert(within(v[j], limit));
            } else {
                assert(within(v[i], limit));
            }
        }
    }
    if v.len() > 0 && v[0].0 == name {
        assert(i == 0);
    }
    if v.len() > 0 && i != 0 {
        assert(w[0] == v[0]);
    }
}

proof fn lemma_widened_new(v: Seq<(Seq<char>, usize)>, idx: int, name: Seq<char>, width: usize, limit: usize)
    requires
        distinct_names(v),
        !names_column(v, name),
        idx >= 1 || v.len() == 0,
        idx >= 0,
    ensures
        widened_facts(v, idx, name, width, limit),
{
    let w = widened(v, idx, name, width);
    let pos = if idx <= v.len() { idx } else { v.len() as int };
    assert(w == v.insert(pos, (name, width)));
    assert(w[pos].0 == name);
    assert forall|n: Seq<char>| names_column(v, n) implies names_column(w, n) by {
        let k = choose|k: int| 0 <= k < v.len() && #[trigger] v[k].0 == n;
        if k < pos {
            assert(w[k].0 == n);
        } else {
            assert(w[k + 1].0 == n);
        }
    }
    assert forall|k: int, j: int| 0 <= k < v.len() && 0 <= j < w.len() && #[trigger] v[k].0 == #[trigger] w[j].0
        implies w[j].1 >= v[k].1 by {
        if j < pos {
            assert(w[j] == v[j]);
            assert(k == j);
        } else if j == pos {
            assert(v[k].0 == name);
        } else {
            assert(w[j] == v[j - 1]);
            assert(k == j - 1);
        }
    }
    assert forall|j: int| 0 <= j < w.len() && #[trigger] w[j].0 == name implies w[j].1 >= width by {
        if j < pos {
            assert(w[j] == v[j]);
            assert(v[j].0 == name);
        } else if j > pos {
            assert(w[j] == v[j - 1]);
            assert(v[j - 1].0 == name);
        }
    }
    if widths_within(v, limit) && name.len() <= width <= limit {
        assert forall|j: int| 0 <= j < w.len() implies #[trigger] within(w[j], limit) by {
            if j < pos {
                assert(w[j] == v[j]);
                assert(within(v[j], limit));
            } else if j > pos {
                assert(w[j] == v[j - 1]);
                assert(within(v[j - 1], limit));
            } else {
                assert(w[j] == (name, width));
            }
        }
    }
    if v.len() == 0 {
        assert(w =~= seq![(name, width)]);
    } else {
        assert(w[0] == v[0]);
    }
}

/// Recording a width keeps every name and width already there, and keeps the
/// first entry first; see [`widened_facts`].
pub proof fn lemma_widened(v: Seq<(Seq<char>, usize)>, idx: int, name: Seq<char>, width: usize, limit: usize)
    requires
        distinct_names(v),
        idx >= 0,
        idx >= 1 || v.len() == 0 || v[0].0 == name,
    ensures
        widened_facts(v, idx, name, width, limit),
{
    if names_column(v, name) {
        lemma_widened_existing(v, idx, name, width, limit);
    } else {
        if v.len() > 0 && v[0].0 == name {
            assert(names_column(v, name));
        }
        lemma_widened_new(v, idx, name, width, limit);
    }
}

/// The display-ordered width registry of one table.
#[derive(Debug)]
pub struct ColumnInfoVec(pub Vec<ColumnInfo>);

impl View for ColumnInfoVec {
    type V = Seq<(Seq<char>, usize)>;

    open spec fn view(&self) -> Seq<(Seq<char>, usize)> {
        self.0@.map_values(|c: ColumnInfo| (c.name@, c.max_width))
    }
}

impl ColumnInfoVec {
    pub fn new() -> (r: ColumnInfoVec)
        ensures
            r@ == Seq::<(Seq<char>, usize)>::empty(),
    {
        let r = ColumnInfoVec(Vec::new());
        assert(r@ =~= Seq::<(Seq<char>, usize)>::empty());
        r
    }

    /// Records `width` for the column `name`, inserting the column at `idx`
    /// (or last, when `idx` is past the end) if it is new.
    pub fn update_column_info(&mut self, idx: usize, name: String, width: usize)
        requires
            distinct_names(old(self)@),
        ensures
            final(self)@ == widened(old(self)@, idx as int, name@, width),
            distinct_names(final(self)@),
    {
        let ghost v = self@;
        assert(forall|i: int| 0 <= i < v.len() ==> #[trigger] v[i].0 == self.0@[i].key());
        assert(unique_keys(self.0@)) by {
            assert forall|a: int, b: int| 0 <= a < self.0@.len() && 0 <= b < self.0@.len() && a != b
                implies #[trigger] self.0@[a].key() != #[trigger] self.0@[b].key() by {
                assert(v[a].0 != v[b].0);
            }
        }
        match find_key(&self.0, name.as_str()) {
            Some(i) => {
                assert(v[i as int].0 == name@);
                let slot = &mut self.0[i];
                slot.update_info(width);
                proof {
                    let j = choose|j: int| 0 <= j < v.len() && #[trigger] v[j].0 == name@;
                    assert(j == i);
                }
                assert(self@ =~= v.update(i as int, (name@, max_usize(v[i as int].1, width))));
            },
            None => {
                assert(!names_column(v, name@));
                let len = self.0.len();
                let pos = if idx <= len { idx } else { len };
                let ghost n = name@;
                self.0.insert(pos, ColumnInfo::new(name, width));
                assert(self@ =~= v.insert(pos as int, (n, width)));
                assert forall|a: int, b: int| 0 <= a < self@.len() && 0 <= b < self@.len() && a != b
                    implies #[trigger] self@[a].0 != #[trigger] self@[b].0 by {
                    if a != pos && b != pos {
                        let a0 = if a < pos { a } else { a - 1 };
                        let b0 = if b < pos { b } else { b - 1 };
                        assert(self@[a] == v[a0] && self@[b] == v[b0]);
                    } else if a == pos {
                        let b0 = if b < pos { b } else { b - 1 };
                        assert(self@[b] == v[b0]);
                    } else {
                        let a0 = if a < pos { a } else { a - 1 };
                        assert(self@[a] == v[a0]);
                    }
                }
            },
        }
    }
}

} // verus!
