use vstd::prelude::*;

verus! {

/// Why building the tables stopped.
#[derive(Debug)]
pub enum BuildError {
    /// The identifier has fewer than two `/`-separated segments.
    MalformedIdentifier(String),
    /// The unit label is none of `s`, `ms`, `us`, `ns`, `ps`.
    UnrecognizedTimeUnit(String),
    /// A row received a second record for a column it already holds.
    DuplicateColumn(String),
}

} // verus!
