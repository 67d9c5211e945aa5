//! The rendering contract: a visitor that a fixed traversal of the tables
//! calls, each call appending text to one output buffer.

use vstd::prelude::*;
use crate::columns::{widths_within, ColumnInfo};
use crate::table::WIDTH_LIMIT;
use crate::units::{Comparison, TimeUnit};

verus! {

/// The text of an optional string.
pub open spec fn opt_text(o: Option<&String>) -> Option<Seq<char>> {
    match o {
        Some(s) => Some(s@),
        None => None,
    }
}

/// The texts of strings.
pub open spec fn texts(v: Seq<String>) -> Seq<Seq<char>> {
    v.map_values(|s: String| s@)
}

/// Name and width of each registry entry.
pub open spec fn info_view(v: Seq<ColumnInfo>) -> Seq<(Seq<char>, usize)> {
    v.map_values(|c: ColumnInfo| (c.name@, c.max_width))
}

/// Implement this visitor to render the tables in another format. Each
/// method appends exactly the text its spec function gives; formatters keep
/// no state between calls.
pub trait Formatter: Sized {
    /// Text of [`Formatter::start`].
    spec fn start_spec(&self, comment: Option<Seq<char>>, tables: Seq<Seq<char>>) -> Seq<char>;

    /// Text of [`Formatter::end`].
    spec fn end_spec(&self) -> Seq<char>;

    /// Text of [`Formatter::start_table`].
    spec fn start_table_spec(&self, name: Seq<char>, comment: Option<Seq<char>>, columns: Seq<(Seq<char>, usize)>) -> Seq<char>;

    /// Text of [`Formatter::end_table`].
    spec fn end_table_spec(&self) -> Seq<char>;

    /// Text of [`Formatter::start_row`].
    spec fn start_row_spec(&self, name: Seq<char>, max_width: usize) -> Seq<char>;

    /// Text of [`Formatter::end_row`].
    spec fn end_row_spec(&self) -> Seq<char>;

    /// Text of [`Formatter::used_column`].
    spec fn used_column_spec(&self, time: TimeUnit, compare: Comparison, max_width: usize) -> Seq<char>;

    /// Text of [`Formatter::unused_column`].
    spec fn unused_column_spec(&self, max_width: usize) -> Seq<char>;

    /// Called first, with the top level `comment`, if any, and the names of
    /// all tables (typically for a table of contents).
    fn start(&mut self, buffer: &mut String, comment: Option<&String>, tables: &Vec<String>)
        ensures
            *final(self) == *old(self),
            final(buffer)@ == old(buffer)@ + old(self).start_spec(opt_text(comment), texts(tables@)),
    ;

    /// Called last, after all tables.
    fn end(&mut self, buffer: &mut String)
        ensures
            *final(self) == *old(self),
            final(buffer)@ == old(buffer)@ + old(self).end_spec(),
    ;

    /// Called before each table with its name, its comment, if any, and its
    /// width registry, the label column first.
    fn start_table(&mut self, buffer: &mut String, name: &String, comment: Option<&String>, columns: &Vec<ColumnInfo>)
        requires
            columns@.len() >= 1,
            widths_within(info_view(columns@), WIDTH_LIMIT),
        ensures
            *final(self) == *old(self),
            final(buffer)@ == old(buffer)@ + old(self).start_table_spec(name@, opt_text(comment), info_view(columns@)),
    ;

    /// Called after each table.
    fn end_table(&mut self, buffer: &mut String)
        ensures
            *final(self) == *old(self),
            final(buffer)@ == old(buffer)@ + old(self).end_table_spec(),
    ;

    /// Called at the start of each row with its name and the width of the
    /// label column.
    fn start_row(&mut self, buffer: &mut String, name: &String, max_width: usize)
        requires
            name@.len() <= max_width <= WIDTH_LIMIT,
        ensures
            *final(self) == *old(self),
            final(buffer)@ == old(buffer)@ + old(self).start_row_spec(name@, max_width),
    ;

    /// Called at the end of each row.
    fn end_row(&mut self, buffer: &mut String)
        ensures
            *final(self) == *old(self),
            final(buffer)@ == old(buffer)@ + old(self).end_row_spec(),
    ;

    /// Called for each column the row holds, with the measurement, its
    /// comparison with the baseline, and the column's width.
    fn used_column(&mut self, buffer: &mut String, time: &TimeUnit, compare: &Comparison, max_width: usize)
        requires
            time.wf(),
            compare.wf(),
            time.text_spec().len() + compare.text_spec().len() <= max_width <= WIDTH_LIMIT,
        ensures
            *final(self) == *old(self),
            final(buffer)@ == old(buffer)@ + old(self).used_column_spec(*time, *compare, max_width),
    ;

    /// Called for each column the row does not hold, with the column's width.
    fn unused_column(&mut self, buffer: &mut String, max_width: usize)
        requires
            max_width <= WIDTH_LIMIT,
        ensures
            *final(self) == *old(self),
            final(buffer)@ == old(buffer)@ + old(self).unused_column_spec(max_width),
    ;
}

} // verus!
