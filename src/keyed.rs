//! Insertion-ordered sequences whose items are told apart by a text key.

use vstd::prelude::*;
use crate::text::same_text;

verus! {

/// An item that carries a text key (a table, row or column name).
pub trait Keyed {
    spec fn key(&self) -> Seq<char>;

    fn key_str(&self) -> (r: &str)
        ensures
            r@ == self.key();
}

/// No two items share a key.
pub open spec fn unique_keys<T: Keyed>(s: Seq<T>) -> bool {
    forall|i: int, j: int| 0 <= i < s.len() && 0 <= j < s.len() && i != j ==> #[trigger] s[i].key() != #[trigger] s[j].key()
}

/// Some item has key `k`.
pub open spec fn has_key<T: Keyed>(s: Seq<T>, k: Seq<char>) -> bool {
    exists|i: int| 0 <= i < s.len() && #[trigger] s[i].key() == k
}

/// The position of the item with key `k`, when there is one.
pub open spec fn key_position<T: Keyed>(s: Seq<T>, k: Seq<char>) -> Option<int> {
    if has_key(s, k) {
        Some(choose|i: int| 0 <= i < s.len() && #[trigger] s[i].key() == k)
    } else {
        None
    }
}

/// With unique keys, the item at `i` is the one `key_position` names.
pub proof fn lemma_key_position<T: Keyed>(s: Seq<T>, i: int)
    requires
        unique_keys(s),
        0 <= i < s.len(),
    ensures
        key_position(s, s[i].key()) == Some(i),
{
    let k = s[i].key();
    assert(has_key(s, k));
    let j = choose|j: int| 0 <= j < s.len() && #[trigger] s[j].key() == k;
    assert(s[j].key() == k);
}

/// Finds the item with key `k`.
pub fn find_key<T: Keyed>(items: &Vec<T>, k: &str) -> (r: Option<usize>)
    requires
        unique_keys(items@),
    ensures
        match r {
            Some(i) => i < items@.len() && items@[i as int].key() == k@ && key_position(items@, k@)
                == Some(i as int),
            None => !has_key(items@, k@) && key_position(items@, k@) is None,
        },
{
    let mut i: usize = 0;
    while i < items.len()
        invariant
            i <= items@.len(),
            unique_keys(items@),
            forall|j: int| 0 <= j < i ==> #[trigger] items@[j].key() != k@,
        decreases items@.len() - i,
    {
        if same_text(items[i].key_str(), k) {
            proof { lemma_key_position(items@, i as int); }
            return Some(i);
        }
        i = i + 1;
    }
    None
}

} // verus!
