pub mod raw;
pub mod subquery;

use vstd::prelude::*;

use crate::error::Error;
use crate::query_builder::query::select::{SelectQuery, SelectView, select_view};
use crate::query_builder::value::{Value, ValueView, clone_values};
use raw::{Raw, RawView, raw_view};
use subquery::SubQuery;

verus! {

/// A possibly dotted identifier (`schema.table`, `table.column`, `table.*`).
/// Rendering quotes each dot-separated segment independently, except a `*`.
#[derive(Debug)]
pub struct Relation(pub String);

impl Relation {
    pub fn clone(&self) -> (res: Self)
        ensures
            res.0@ == self.0@,
    {
        Relation(self.0.clone())
    }
}

/// One literal, or an ordered list of literals (for `in (...)`-style
/// predicates).
#[derive(Debug)]
pub enum ArgValue {
    Value(Value),
    Values(Vec<Value>),
}

/// The mathematical shape of an [`ArgValue`].
#[verifier::ext_equal]
pub enum ArgValueView {
    Value(ValueView),
    Values(Seq<ValueView>),
}

impl View for ArgValue {
    type V = ArgValueView;

    open spec fn view(&self) -> ArgValueView {
        match self {
            ArgValue::Value(v) => ArgValueView::Value(v@),
            ArgValue::Values(vs) => ArgValueView::Values(vs.deep_view()),
        }
    }
}

impl ArgValue {
    /// A copy of this literal or literal list.
    pub fn clone(&self) -> (res: Self)
        ensures
            res@ == self@,
    {
        match self {
            ArgValue::Value(v) => ArgValue::Value(v.clone()),
            ArgValue::Values(vs) => ArgValue::Values(clone_values(vs)),
        }
    }
}

/// A SQL keyword rendered as fixed literal text, never parameterized.
#[derive(Debug, Clone, Copy, PartialEq, Eq, Structural)]
pub enum SqlKeyword {
    Asc,
    Desc,
    NullsFirst,
    NullsLast,
}

/// Any operand of a predicate, projection item, or table reference.
#[derive(Debug)]
pub enum Arg {
    Relation(Relation),
    Value(ArgValue),
    Raw(Raw),
    SubQuery(SubQuery),
    Keyword(SqlKeyword),
}

/// The mathematical shape of an [`Arg`].
#[verifier::ext_equal]
pub enum ArgView {
    Relation(Seq<char>),
    Value(ArgValueView),
    Raw(RawView),
    SubQuery(Box<SelectView>),
    Keyword(SqlKeyword),
}

/// The view of an argument, recursing into sub-queries.
pub open spec fn arg_view(a: Arg) -> ArgView
    decreases a,
{
    match a {
        Arg::Relation(rel) => ArgView::Relation(rel.0@),
        Arg::Value(av) => ArgView::Value(av@),
        Arg::Raw(r) => ArgView::Raw(raw_view(r)),
        Arg::SubQuery(sq) => ArgView::SubQuery(Box::new(select_view(*sq.0))),
        Arg::Keyword(k) => ArgView::Keyword(k),
    }
}

impl View for Arg {
    type V = ArgView;

    open spec fn view(&self) -> ArgView {
        arg_view(*self)
    }
}

impl DeepView for Arg {
    type V = ArgView;

    open spec fn deep_view(&self) -> ArgView {
        arg_view(*self)
    }
}

impl Arg {
    /// A copy of this argument, recursing into sub-queries.
    pub fn clone(&self) -> (res: Self)
        ensures
            arg_view(res) == arg_view(*self),
        decreases *self,
    {
        match self {
            Arg::Relation(rel) => Arg::Relation(rel.clone()),
            Arg::Value(av) => Arg::Value(av.clone()),
            Arg::Raw(r) => Arg::Raw(r.clone()),
            Arg::SubQuery(sq) => Arg::SubQuery(SubQuery(Box::new(sq.0.clone()))),
            Arg::Keyword(k) => Arg::Keyword(*k),
        }
    }
}

/// Conversion of plain operands into [`Arg`]. The conversion itself cannot
/// fail; the `Result` mirrors the fluent API's error protocol.
pub trait TryIntoArg: Sized {
    /// The argument this operand converts to.
    spec fn arg_spec(&self) -> ArgView;

    /// Wraps the operand in its [`Arg`] kind.
    fn try_into_arg(self) -> (r: Result<Arg, Error>)
        ensures
            r matches Ok(a) && a@ == self.arg_spec(),
    ;
}

impl TryIntoArg for &str {
    open spec fn arg_spec(&self) -> ArgView {
        ArgView::Relation(self@)
    }

    fn try_into_arg(self) -> (r: Result<Arg, Error>) {
        Ok(Arg::Relation(Relation(self.to_owned())))
    }
}

impl TryIntoArg for String {
    open spec fn arg_spec(&self) -> ArgView {
        ArgView::Relation(self@)
    }

    fn try_into_arg(self) -> (r: Result<Arg, Error>) {
        Ok(Arg::Relation(Relation(self)))
    }
}

impl TryIntoArg for Value {
    open spec fn arg_spec(&self) -> ArgView {
        ArgView::Value(ArgValueView::Value(self@))
    }

    fn try_into_arg(self) -> (r: Result<Arg, Error>) {
        Ok(Arg::Value(ArgValue::Value(self)))
    }
}

impl TryIntoArg for Vec<Value> {
    open spec fn arg_spec(&self) -> ArgView {
        ArgView::Value(ArgValueView::Values(self.deep_view()))
    }

    fn try_into_arg(self) -> (r: Result<Arg, Error>) {
        Ok(Arg::Value(ArgValue::Values(self)))
    }
}

impl TryIntoArg for SqlKeyword {
    open spec fn arg_spec(&self) -> ArgView {
        ArgView::Keyword(*self)
    }

    fn try_into_arg(self) -> (r: Result<Arg, Error>) {
        Ok(Arg::Keyword(self))
    }
}

impl TryIntoArg for Raw {
    open spec fn arg_spec(&self) -> ArgView {
        ArgView::Raw(raw_view(*self))
    }

    fn try_into_arg(self) -> (r: Result<Arg, Error>) {
        Ok(Arg::Raw(self))
    }
}

impl TryIntoArg for SelectQuery {
    open spec fn arg_spec(&self) -> ArgView {
        ArgView::SubQuery(Box::new(select_view(*self)))
    }

    fn try_into_arg(self) -> (r: Result<Arg, Error>) {
        Ok(Arg::SubQuery(SubQuery(Box::new(self))))
    }
}

impl TryIntoArg for Arg {
    open spec fn arg_spec(&self) -> ArgView {
        arg_view(*self)
    }

    fn try_into_arg(self) -> (r: Result<Arg, Error>) {
        Ok(self)
    }
}

} // verus!
