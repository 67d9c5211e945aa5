//! The counter that decides where a new column goes: how many records of
//! each row name the whole input has held so far, across all tables.

use vstd::prelude::*;
use indexmap::IndexMap;

verus! {

#[verifier::external_type_specification]
#[verifier::external_body]
#[verifier::reject_recursive_types(K)]
#[verifier::reject_recursive_types(V)]
#[verifier::reject_recursive_types(S)]
pub struct ExIndexMap<K, V, S>(IndexMap<K, V, S>);

/// Row names mapped to how often each was seen.
pub type RowCounts = IndexMap<String, usize>;

/// No row name seen yet.
pub open spec fn no_counts() -> Map<Seq<char>, usize> {
    Map::empty()
}

/// What a map of row names to counts holds.
pub uninterp spec fn counts_of(m: RowCounts) -> Map<Seq<char>, usize>;

/// Relies on `IndexMap::new`: a new map holds nothing.
#[verifier::external_body]
fn empty_counts() -> (r: RowCounts)
    ensures
        counts_of(r) == no_counts(),
{
    IndexMap::new()
}

/// Relies on `IndexMap::get`: the value stored under an equal key, if any.
#[verifier::external_body]
fn count_for(m: &RowCounts, key: &str) -> (r: Option<usize>)
    ensures
        counts_of(*m).contains_key(key@) ==> r == Some(counts_of(*m)[key@]),
        !counts_of(*m).contains_key(key@) ==> r is None,
{
    m.get(key).copied()
}

/// Relies on `IndexMap::insert`: the key's value becomes `value`; other
/// keys keep theirs.
#[verifier::external_body]
fn store_count(m: &mut RowCounts, key: String, value: usize)
    ensures
        counts_of(*final(m)) == counts_of(*old(m)).insert(key@, value),
{
    m.insert(key, value);
}

/// How many records of each row name have been seen so far.
pub struct ColumnPosition(RowCounts);

impl View for ColumnPosition {
    type V = Map<Seq<char>, usize>;

    closed spec fn view(&self) -> Map<Seq<char>, usize> {
        counts_of(self.0)
    }
}

/// The count of `row` in `counts`; zero if never seen.
pub open spec fn seen(counts: Map<Seq<char>, usize>, row: Seq<char>) -> usize {
    if counts.contains_key(row) { counts[row] } else { 0 }
}

/// One more than `c`, saturating at the largest `usize`.
pub open spec fn successor(c: usize) -> usize {
    if c < usize::MAX { (c + 1) as usize } else { c }
}

impl ColumnPosition {
    pub fn new() -> (r: ColumnPosition)
        ensures
            r@ == no_counts(),
    {
        ColumnPosition(empty_counts())
    }

    /// Counts one more record of `row_name` and returns the new count: the
    /// position at which a column first seen with this record is inserted.
    pub fn next_idx(&mut self, row_name: String) -> (r: usize)
        ensures
            r == successor(seen(old(self)@, row_name@)),
            r >= 1,
            final(self)@ == old(self)@.insert(row_name@, r),
    {
        let count = match count_for(&self.0, row_name.as_str()) {
            Some(c) => c,
            None => 0,
        };
        let next = if count < usize::MAX { count + 1 } else { count };
        store_count(&mut self.0, row_name, next);
        next
    }
}

} // verus!
