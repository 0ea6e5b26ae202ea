pub mod conditions;
pub mod qb_arg;
pub mod query;
pub mod row;
pub mod value;

use vstd::prelude::*;

pub use conditions::{
    ConditionOp, Conditions, GroupedWhereCondition, PushCondition, SingleWhereCondition,
    TryIntoCondition, WhereCondition,
};
pub use qb_arg::raw::{Raw, RawExt};
pub use qb_arg::subquery::SubQuery;
pub use qb_arg::{Arg, ArgValue, Relation, SqlKeyword, TryIntoArg};
pub use query::delete::DeleteQuery;
pub use query::insert::{InsertFromSubQuery, InsertQuery, InsertType, InsertWithValues};
pub use query::select::column::{Column, ColumnExt, TryIntoColumn};
pub use query::select::join::{Join, RegularJoin};
pub use query::select::ordering::{Ordering, TryIntoOrdering};
pub use query::select::SelectQuery;
pub use query::update::UpdateQuery;
pub use row::{Row, RowBuilder};
pub use value::{Value, ValueExt};

use crate::error::Error;
use crate::sql_dialect::model::{
    delete_ok, delete_text, delete_vals, insert_ok, insert_text, insert_vals, select_ok,
    select_text, select_vals, update_ok, update_text, update_vals,
};
use crate::sql_dialect::{Sql, SqlDialect};
use query::delete::{DeleteView, delete_view};
use query::insert::{InsertTypeView, InsertView, insert_view};
use query::select::{SelectView, empty_select_view, select_view};
use query::update::{UpdateView, update_view};
use value::ValueView;

verus! {

/// A statement of exactly one kind at a time.
#[derive(Debug)]
pub enum Query {
    Select(SelectQuery),
    Update(UpdateQuery),
    Delete(DeleteQuery),
    Insert(InsertQuery),
}

/// The mathematical shape of a statement of any kind.
#[verifier::ext_equal]
pub enum QueryView {
    Select(SelectView),
    Update(UpdateView),
    Delete(DeleteView),
    Insert(InsertView),
}

impl View for Query {
    type V = QueryView;

    open spec fn view(&self) -> QueryView {
        match self {
            Query::Select(s) => QueryView::Select(select_view(*s)),
            Query::Update(u) => QueryView::Update(update_view(*u)),
            Query::Delete(d) => QueryView::Delete(delete_view(*d)),
            Query::Insert(i) => QueryView::Insert(insert_view(*i)),
        }
    }
}

impl Query {
    /// Renders the statement of whatever kind this is, for the dialect `D`.
    pub fn sql<D: SqlDialect>(&self) -> (r: Result<Sql, Error>)
        ensures
            self@ matches QueryView::Select(s) ==> (select_ok(s) ==> (r matches Ok(sql)
                && sql.sql@ == select_text(s, D::quote_spec(), 0) && sql.bindings.deep_view()
                == select_vals(s))),
            self@ matches QueryView::Update(u) ==> (update_ok(u) ==> (r matches Ok(sql)
                && sql.sql@ == update_text(u, D::quote_spec()) && sql.bindings.deep_view()
                == update_vals(u))),
            self@ matches QueryView::Delete(d) ==> (delete_ok(d) ==> (r matches Ok(sql)
                && sql.sql@ == delete_text(d, D::quote_spec()) && sql.bindings.deep_view()
                == delete_vals(d))),
            self@ matches QueryView::Insert(i) ==> (insert_ok(i) ==> (r matches Ok(sql)
                && sql.sql@ == insert_text(i, D::quote_spec()) && sql.bindings.deep_view()
                == insert_vals(i))),
            r is Ok <==> (match self@ {
                QueryView::Select(s) => select_ok(s),
                QueryView::Update(u) => update_ok(u),
                QueryView::Delete(d) => delete_ok(d),
                QueryView::Insert(i) => insert_ok(i),
            }),
            self@ matches QueryView::Select(s) ==> (!select_ok(s) ==> r == Err::<Sql, Error>(
                Error { kind: crate::error::ErrorKind::RawBindingsMismatch },
            )),
            self@ matches QueryView::Update(u) ==> (!update_ok(u) ==> r == Err::<Sql, Error>(
                Error { kind: crate::error::ErrorKind::RawBindingsMismatch },
            )),
            self@ matches QueryView::Delete(d) ==> (!delete_ok(d) ==> r == Err::<Sql, Error>(
                Error { kind: crate::error::ErrorKind::RawBindingsMismatch },
            )),
            self@ matches QueryView::Insert(i) ==> (i.inner is FromSubQuery ==> r == Err::<
                Sql,
                Error,
            >(Error { kind: crate::error::ErrorKind::InsertFromSubQueryUnsupported })),
            self@ matches QueryView::Insert(i) ==> (i.inner is WithValues && !insert_ok(i)
                ==> r == Err::<Sql, Error>(
                Error { kind: crate::error::ErrorKind::InsertShapeMismatch },
            )),
    {
        match self {
            Query::Select(s) => s.sql::<D>(),
            Query::Update(u) => u.sql::<D>(),
            Query::Delete(d) => d.sql::<D>(),
            Query::Insert(i) => i.sql::<D>(),
        }
    }
}

impl Default for Query {
    /// An empty select statement.
    fn default() -> (q: Self)
        ensures
            q@ == QueryView::Select(empty_select_view()),
    {
        Query::Select(SelectQuery::default())
    }
}

/// The entry point of the fluent API: one constructor per statement kind.
#[derive(Debug)]
pub struct QueryBuilder;

impl QueryBuilder {
    /// An empty select statement, same as [`QueryBuilder::select`].
    pub fn new() -> (q: SelectQuery)
        ensures
            q@ == empty_select_view(),
    {
        SelectQuery::default()
    }

    /// An empty select statement.
    pub fn select() -> (q: SelectQuery)
        ensures
            q@ == empty_select_view(),
    {
        SelectQuery::default()
    }

    /// An empty insert statement.
    pub fn insert() -> (q: InsertQuery)
        ensures
            q@ == (InsertView {
                table: None,
                ordered_columns: None,
                inner: InsertTypeView::WithValues(Seq::empty()),
            }),
    {
        InsertQuery::default()
    }

    /// An empty delete statement.
    pub fn delete() -> (q: DeleteQuery)
        ensures
            q@ == (DeleteView { table: None, where_clause: Seq::empty() }),
    {
        DeleteQuery::default()
    }

    /// An update statement over the record's declared columns and its
    /// values, paired in declared order: the i-th column is set to the i-th
    /// value.
    pub fn update<R: Row>(row: R) -> (q: UpdateQuery)
        ensures
            q@ == (UpdateView {
                table: None,
                columns: R::columns_spec(),
                values: row.row_spec(),
                where_clause: Seq::empty(),
            }),
    {
        let ghost rspec = row.row_spec();
        let columns = R::columns();
        let mut builder = RowBuilder::new();
        row.into_row(&mut builder);
        proof {
            assert(builder.values.deep_view() =~= rspec);
        }
        let q = UpdateQuery {
            table: None,
            columns,
            values: builder.values,
            where_clause: Vec::new(),
        };
        proof {
            assert(q@ =~= (UpdateView {
                table: None,
                columns: R::columns_spec(),
                values: rspec,
                where_clause: Seq::empty(),
            }));
        }
        q
    }
}

} // verus!
