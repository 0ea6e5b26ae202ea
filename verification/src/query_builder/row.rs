use vstd::prelude::*;

use crate::query_builder::value::{Value, ValueView};

verus! {

/// A value accumulator handed to [`Row::into_row`]: a row implementation
/// appends exactly one value per declared column, in column order.
#[derive(Debug)]
pub struct RowBuilder {
    pub values: Vec<Value>,
}

impl RowBuilder {
    /// An empty accumulator.
    pub fn new() -> (b: RowBuilder)
        ensures
            b.values@.len() == 0,
    {
        RowBuilder { values: Vec::new() }
    }

    /// Appends one value.
    pub fn append_binding(&mut self, value: Value)
        ensures
            final(self).values@ == old(self).values@.push(value),
    {
        self.values.push(value);
    }
}

/// The row-mapping capability: a record type exposes its fixed ordered
/// column-name list and appends its field values, in the same order, into an
/// accumulator. An implementation declares in `columns_spec` and `row_spec`
/// which names and values those are; keeping the two orders aligned is the
/// implementor's contract — the renderer cannot detect a mismatch.
///
/// The two spec functions default to unspecified values so that ordinary
/// Rust implementations need not spell them out; an implementation whose
/// `columns` and `into_row` are themselves verified overrides them, since
/// nothing can be proved to equal an unspecified value.
pub trait Row {
    /// The ordered column names of this record type.
    open spec fn columns_spec() -> Seq<Seq<char>> {
        arbitrary()
    }

    /// The values of this record, one per column, in column order.
    open spec fn row_spec(&self) -> Seq<ValueView> {
        arbitrary()
    }

    /// The ordered column names of this record type.
    fn columns() -> (cols: Vec<String>)
        ensures
            cols.deep_view() == Self::columns_spec(),
    ;

    /// Appends this record's values, one per column, in column order.
    fn into_row(self, builder: &mut RowBuilder)
        ensures
            final(builder).values.deep_view() == old(builder).values.deep_view()
                + self.row_spec(),
    ;
}

/// The values a list of records appends, one record after another, in list
/// order.
pub open spec fn rows_spec<R: Row>(rows: Seq<R>) -> Seq<ValueView>
    decreases rows.len(),
{
    if rows.len() == 0 {
        Seq::empty()
    } else {
        rows[0].row_spec() + rows_spec(rows.skip(1))
    }
}

} // verus!
