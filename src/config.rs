//! Comments attached to the report and to its tables.

use vstd::prelude::*;
use crate::text::{lower_of, replace_char, replaced, same_text, to_lower};

verus! {

/// Comments to add to the report: one above all tables, and one per table,
/// looked up by the table's key (see [`encode_key`]).
#[derive(Debug)]
pub struct TablesConfig {
    /// Top level comment.
    pub comments: Option<String>,
    /// Per table comments: (table key, comment).
    pub table_comments: Vec<(String, String)>,
}

/// The comment of the first entry keyed `key`.
pub open spec fn comment_for(entries: Seq<(String, String)>, key: Seq<char>) -> Option<String>
    decreases entries.len(),
{
    if entries.len() == 0 {
        None
    } else if entries[0].0@ == key {
        Some(entries[0].1)
    } else {
        comment_for(entries.drop_first(), key)
    }
}

/// The key of a table name: spaces become underscores, then lowercase.
pub open spec fn key_of(name: Seq<char>) -> Seq<char> {
    lower_of(replaced(name, ' ', '_'))
}

/// The key under which a table's comment is looked up: `"Fast Fib"` gives
/// `"fast_fib"`.
pub fn encode_key(s: &str) -> (r: String)
    ensures
        r@ == key_of(s@),
{
    let spaced = replace_char(s, ' ', '_');
    to_lower(spaced.as_str())
}

impl TablesConfig {
    /// A config with no comments.
    pub fn empty() -> (r: TablesConfig)
        ensures
            r.comments is None,
            r.table_comments@.len() == 0,
    {
        TablesConfig { comments: None, table_comments: Vec::new() }
    }

    /// The comment of the table named `name`, found by its key.
    pub open spec fn comment_of(&self, name: Seq<char>) -> Option<String> {
        comment_for(self.table_comments@, key_of(name))
    }

    /// The comment of the table named `name`, found by its key.
    pub fn table_comment(&self, name: &str) -> (r: Option<String>)
        ensures
            r == self.comment_of(name@),
    {
        let key = encode_key(name);
        let entries = &self.table_comments;
        let mut i: usize = 0;
        assert(entries@.skip(0) =~= entries@);
        while i < entries.len()
            invariant
                i <= entries@.len(),
                key@ == key_of(name@),
                entries@ == self.table_comments@,
                comment_for(entries@, key@) == comment_for(entries@.skip(i as int), key@),
            decreases entries@.len() - i,
        {
            assert(entries@.skip(i as int).drop_first() =~= entries@.skip(i + 1));
            assert(entries@.skip(i as int)[0] == entries@[i as int]);
            if same_text(entries[i].0.as_str(), key.as_str()) {
                let c = entries[i].1.clone();
                assert(comment_for(entries@.skip(i as int), key@) == Some(entries@[i as int].1));
                return Some(c);
            }
            i = i + 1;
        }
        None
    }
}

} // verus!
