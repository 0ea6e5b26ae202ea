use vstd::prelude::*;

use crate::error::Error;
use crate::query_builder::qb_arg::{Arg, ArgView, Relation, TryIntoArg, arg_view};
use crate::query_builder::query::select::SelectQuery;

verus! {

/// One projection item: an argument with an optional alias.
#[derive(Debug)]
pub struct Column {
    pub arg: Arg,
    pub alias: Option<String>,
}

/// The mathematical shape of a projection item.
#[verifier::ext_equal]
pub struct ColumnView {
    pub arg: ArgView,
    pub alias: Option<Seq<char>>,
}

/// The view of one projection item.
pub open spec fn column_view(c: Column) -> ColumnView
    decreases c,
{
    ColumnView {
        arg: arg_view(c.arg),
        alias: match c.alias {
            Some(a) => Some(a@),
            None => None,
        },
    }
}

/// The view of a projection list, in order.
pub open spec fn columns_view(cs: Seq<Column>) -> Seq<ColumnView>
    decreases cs,
{
    if cs.len() == 0 {
        Seq::empty()
    } else {
        columns_view(cs.drop_last()).push(column_view(cs.last()))
    }
}

/// A projection list's view has the same length and the item views in
/// place.
pub proof fn lemma_columns_view_index(cs: Seq<Column>)
    ensures
        columns_view(cs).len() == cs.len(),
        forall|i: int| 0 <= i < cs.len() ==> columns_view(cs)[i] == column_view(cs[i]),
    decreases cs.len(),
{
    if cs.len() > 0 {
        lemma_columns_view_index(cs.drop_last());
        assert forall|i: int| 0 <= i < cs.len() implies columns_view(cs)[i] == column_view(
            cs[i],
        ) by {
            if i < cs.len() - 1 {
                assert(cs.drop_last()[i] == cs[i]);
            }
        }
    }
}

impl View for Column {
    type V = ColumnView;

    open spec fn view(&self) -> ColumnView {
        column_view(*self)
    }
}

impl Column {
    /// A copy of this projection item.
    pub fn clone(&self) -> (res: Self)
        ensures
            column_view(res) == column_view(*self),
        decreases *self,
    {
        Column {
            arg: self.arg.clone(),
            alias: match &self.alias {
                Some(a) => Some(a.clone()),
                None => None,
            },
        }
    }
}

/// Clones a projection list, preserving every item's shape.
pub fn clone_columns(cs: &Vec<Column>) -> (r: Vec<Column>)
    ensures
        columns_view(r@) == columns_view(cs@),
    decreases *cs,
{
    let mut out: Vec<Column> = Vec::new();
    let n = cs.len();
    let mut i: usize = 0;
    while i < n
        invariant
            0 <= i <= n,
            n == cs@.len(),
            out@.len() == i,
            forall|j: int| 0 <= j < i ==> column_view(out@[j]) == column_view(cs@[j]),
        decreases n - i,
    {
        let c = cs[i].clone();
        out.push(c);
        i += 1;
    }
    proof {
        lemma_columns_view_index(out@);
        lemma_columns_view_index(cs@);
        assert(columns_view(out@) =~= columns_view(cs@));
    }
    out
}

/// Aliasing shorthand: `"column".alias("name")`.
pub trait ColumnExt {
    /// The argument the aliased column projects.
    spec fn column_arg_spec(&self) -> ArgView;

    /// Builds the aliased projection item.
    fn alias(self, alias: &str) -> (c: Column)
        ensures
            c@.arg == self.column_arg_spec(),
            c@.alias == Some(alias@),
    ;
}

impl ColumnExt for &str {
    open spec fn column_arg_spec(&self) -> ArgView {
        ArgView::Relation(self@)
    }

    fn alias(self, alias: &str) -> (c: Column) {
        Column {
            arg: Arg::Relation(Relation(self.to_owned())),
            alias: Some(alias.to_owned()),
        }
    }
}

/// Conversion of plain operands into projection items. The conversion itself
/// cannot fail; the `Result` mirrors the fluent API's error protocol.
pub trait TryIntoColumn: Sized {
    /// The projection item this operand converts to.
    spec fn column_spec(&self) -> ColumnView;

    /// Builds the projection item.
    fn try_into_column(self) -> (r: Result<Column, Error>)
        ensures
            r matches Ok(c) && c@ == self.column_spec(),
    ;
}

impl TryIntoColumn for &str {
    open spec fn column_spec(&self) -> ColumnView {
        ColumnView { arg: ArgView::Relation(self@), alias: None }
    }

    fn try_into_column(self) -> (r: Result<Column, Error>) {
        Ok(Column { arg: Arg::Relation(Relation(self.to_owned())), alias: None })
    }
}

impl TryIntoColumn for &String {
    open spec fn column_spec(&self) -> ColumnView {
        ColumnView { arg: ArgView::Relation(self@), alias: None }
    }

    fn try_into_column(self) -> (r: Result<Column, Error>) {
        Ok(Column { arg: Arg::Relation(Relation(self.clone())), alias: None })
    }
}

impl TryIntoColumn for String {
    open spec fn column_spec(&self) -> ColumnView {
        ColumnView { arg: ArgView::Relation(self@), alias: None }
    }

    fn try_into_column(self) -> (r: Result<Column, Error>) {
        Ok(Column { arg: Arg::Relation(Relation(self)), alias: None })
    }
}

impl TryIntoColumn for SelectQuery {
    open spec fn column_spec(&self) -> ColumnView {
        ColumnView { arg: TryIntoArg::arg_spec(self), alias: None }
    }

    fn try_into_column(self) -> (r: Result<Column, Error>) {
        let arg = match self.try_into_arg() {
            Ok(a) => a,
            Err(_) => { proof { assert(false); } unreached() },
        };
        Ok(Column { arg, alias: None })
    }
}

impl TryIntoColumn for Column {
    open spec fn column_spec(&self) -> ColumnView {
        column_view(*self)
    }

    fn try_into_column(self) -> (r: Result<Column, Error>) {
        Ok(self)
    }
}

} // verus!
