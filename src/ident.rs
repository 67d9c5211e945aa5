//! Benchmark identifiers: `table/column[/row...]`.

use vstd::prelude::*;
use vstd::string::*;
use crate::error::BuildError;
use crate::text::char_count;

verus! {

/// Position of the first `/` in `s`, or its length when there is none.
pub open spec fn first_slash(s: Seq<char>) -> nat
    decreases s.len(),
{
    if s.len() == 0 {
        0
    } else if s[0] == '/' {
        0
    } else {
        1 + first_slash(s.drop_first())
    }
}

/// `s` holds a `/`.
pub open spec fn has_slash(s: Seq<char>) -> bool {
    first_slash(s) < s.len()
}

/// The first segment of `s`: everything before its first `/`.
pub open spec fn head(s: Seq<char>) -> Seq<char> {
    s.take(first_slash(s) as int)
}

/// Everything after the first `/` of `s`.
pub open spec fn tail(s: Seq<char>) -> Seq<char> {
    s.skip(first_slash(s) as int + 1)
}

/// A position with no `/` before it, and a `/` at it unless it is the end,
/// is the first `/`.
pub proof fn lemma_first_slash_at(s: Seq<char>, i: int)
    requires
        0 <= i <= s.len(),
        forall|j: int| 0 <= j < i ==> s[j] != '/',
        i < s.len() ==> s[i] == '/',
    ensures
        first_slash(s) == i,
    decreases s.len(),
{
    if s.len() > 0 && s[0] != '/' {
        assert forall|j: int| 0 <= j < i - 1 implies s.drop_first()[j] != '/' by {
            assert(s.drop_first()[j] == s[j + 1]);
        }
        lemma_first_slash_at(s.drop_first(), i - 1);
    }
}

/// Finds the first `/` of `s`, or its length when there is none.
fn find_slash(s: &str) -> (r: usize)
    ensures
        r == first_slash(s@),
        r <= s@.len(),
{
    let n = char_count(s);
    let mut i: usize = 0;
    while i < n
        invariant
            n == s@.len(),
            i <= n,
            forall|j: int| 0 <= j < i ==> s@[j] != '/',
        decreases n - i,
    {
        if s.get_char(i) == '/' {
            proof { lemma_first_slash_at(s@, i as int); }
            return i;
        }
        i = i + 1;
    }
    proof { lemma_first_slash_at(s@, n as int); }
    n
}

/// Where a record belongs: its table, its column, and its row (empty when
/// the identifier has no third segment). Segments past the third are ignored.
#[derive(Debug)]
pub struct BenchmarkId {
    pub table: String,
    pub column: String,
    pub row: String,
}

impl BenchmarkId {
    /// Splits an identifier on `/`. One with fewer than two segments (no `/`
    /// at all) is an error that names it.
    pub fn parse(id: &str) -> (r: Result<BenchmarkId, BuildError>)
        ensures
            !has_slash(id@) ==> (r matches Err(BuildError::MalformedIdentifier(e)) && e@ == id@),
            has_slash(id@) ==> (r matches Ok(b) && b.table@ == head(id@) && b.column@ == head(tail(id@))
                && b.row@ == (if has_slash(tail(id@)) { head(tail(tail(id@))) } else { Seq::empty() })),
    {
        let n = char_count(id);
        let p = find_slash(id);
        if p == n {
            return Err(BuildError::MalformedIdentifier(id.to_owned()));
        }
        let table = id.substring_char(0, p).to_owned();
        let rest = id.substring_char(p + 1, n);
        assert(rest@ =~= tail(id@));
        let m = char_count(rest);
        let q = find_slash(rest);
        let column = rest.substring_char(0, q).to_owned();
        let row = if q == m {
            proof { reveal_strlit(""); }
            "".to_owned()
        } else {
            let more = rest.substring_char(q + 1, m);
            assert(more@ =~= tail(tail(id@)));
            let k = find_slash(more);
            more.substring_char(0, k).to_owned()
        };
        proof {
            assert(table@ =~= head(id@));
            assert(column@ =~= head(tail(id@)));
            if q == m {
                assert(row@ =~= Seq::<char>::empty());
            }
        }
        Ok(BenchmarkId { table, column, row })
    }
}

} // verus!
