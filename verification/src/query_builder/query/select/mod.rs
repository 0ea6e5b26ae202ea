pub mod column;
pub mod join;
pub mod ordering;

use vstd::prelude::*;

use crate::error::{Error, ErrorKind};
use crate::query_builder::conditions::{
    CondView, Conditions, PushCondition, WhereCondition, conds_view,
};
use crate::sql_dialect::model::{select_ok, select_text, select_vals};
use crate::sql_dialect::{Sql, SqlDialect, SqlWriter, check_select};
use crate::query_builder::qb_arg::{Arg, ArgView, TryIntoArg, arg_view};
use column::{
    Column, ColumnView, TryIntoColumn, clone_columns, column_view, columns_view,
};
use join::{
    Join, JoinView, RegularJoin, clone_joins, join_view, joins_view, lemma_joins_view_push,
};
use ordering::{
    Ordering, OrderingView, TryIntoOrdering, clone_orderings, lemma_orderings_view_push,
    ordering_view, orderings_view,
};

verus! {

/// A select statement: projection, source, joins, condition tree, ordering,
/// paging, and an alias used when the statement serves as a sub-query.
#[derive(Debug)]
pub struct SelectQuery {
    pub columns: Option<Vec<Column>>,
    pub table: Option<Box<Arg>>,
    pub joins: Option<Vec<Join>>,
    pub where_: Vec<WhereCondition>,
    pub limit: Option<usize>,
    pub offset: Option<usize>,
    pub ordering: Option<Vec<Ordering>>,
    pub group_by: Option<Vec<Arg>>,
    pub alias: Option<String>,
}

/// The mathematical shape of a select statement.
#[verifier::ext_equal]
pub struct SelectView {
    pub columns: Option<Seq<ColumnView>>,
    pub table: Option<ArgView>,
    pub joins: Option<Seq<JoinView>>,
    pub where_: Seq<CondView>,
    pub limit: Option<usize>,
    pub offset: Option<usize>,
    pub ordering: Option<Seq<OrderingView>>,
    pub group_by: Option<Seq<ArgView>>,
    pub alias: Option<Seq<char>>,
}

/// The view of an argument list, in order.
pub open spec fn args_view(args: Seq<Arg>) -> Seq<ArgView>
    decreases args,
{
    if args.len() == 0 {
        Seq::empty()
    } else {
        args_view(args.drop_last()).push(arg_view(args.last()))
    }
}

/// Appending one argument to an argument list appends its view.
pub proof fn lemma_args_view_push(args: Seq<Arg>, a: Arg)
    ensures
        args_view(args.push(a)) == args_view(args).push(arg_view(a)),
{
    assert(args.push(a).drop_last() =~= args);
    assert(args.push(a).last() == a);
}

/// An argument list's view has the same length and the argument views in
/// place.
pub proof fn lemma_args_view_index(args: Seq<Arg>)
    ensures
        args_view(args).len() == args.len(),
        forall|i: int| 0 <= i < args.len() ==> args_view(args)[i] == arg_view(args[i]),
    decreases args.len(),
{
    if args.len() > 0 {
        lemma_args_view_index(args.drop_last());
        assert forall|i: int| 0 <= i < args.len() implies args_view(args)[i] == arg_view(
            args[i],
        ) by {
            if i < args.len() - 1 {
                assert(args.drop_last()[i] == args[i]);
            }
        }
    }
}

/// Clones an argument list, preserving every argument's shape.
pub fn clone_args(args: &Vec<Arg>) -> (r: Vec<Arg>)
    ensures
        args_view(r@) == args_view(args@),
    decreases *args,
{
    let mut out: Vec<Arg> = Vec::new();
    let n = args.len();
    let mut i: usize = 0;
    while i < n
        invariant
            0 <= i <= n,
            n == args@.len(),
            out@.len() == i,
            forall|j: int| 0 <= j < i ==> arg_view(out@[j]) == arg_view(args@[j]),
        decreases n - i,
    {
        let a = args[i].clone();
        out.push(a);
        i += 1;
    }
    proof {
        lemma_args_view_index(out@);
        lemma_args_view_index(args@);
        assert(args_view(out@) =~= args_view(args@));
    }
    out
}

/// The view of a select statement, recursing into every argument.
pub open spec fn select_view(s: SelectQuery) -> SelectView
    decreases s,
{
    SelectView {
        columns: match s.columns {
            Some(cols) => Some(columns_view(cols@)),
            None => None,
        },
        table: match s.table {
            Some(t) => Some(arg_view(*t)),
            None => None,
        },
        joins: match s.joins {
            Some(js) => Some(joins_view(js@)),
            None => None,
        },
        where_: conds_view(s.where_@),
        limit: s.limit,
        offset: s.offset,
        ordering: match s.ordering {
            Some(os) => Some(orderings_view(os@)),
            None => None,
        },
        group_by: match s.group_by {
            Some(gs) => Some(args_view(gs@)),
            None => None,
        },
        alias: match s.alias {
            Some(a) => Some(a@),
            None => None,
        },
    }
}

/// The view of a statement with nothing set: an unconstrained `select *`.
pub open spec fn empty_select_view() -> SelectView {
    SelectView {
        columns: None,
        table: None,
        joins: None,
        where_: Seq::empty(),
        limit: None,
        offset: None,
        ordering: None,
        group_by: None,
        alias: None,
    }
}

impl View for SelectQuery {
    type V = SelectView;

    open spec fn view(&self) -> SelectView {
        select_view(*self)
    }
}

impl Default for SelectQuery {
    /// A statement with nothing set, which renders as `select *`.
    fn default() -> (s: Self)
        ensures
            s@ == empty_select_view(),
    {
        SelectQuery {
            columns: None,
            table: None,
            joins: None,
            where_: Vec::new(),
            limit: None,
            offset: None,
            ordering: None,
            group_by: None,
            alias: None,
        }
    }
}

/// The projection list a column list converts to, in input order.
pub open spec fn columns_spec_of<C: TryIntoColumn>(cols: Seq<C>) -> Seq<ColumnView> {
    Seq::new(cols.len(), |i: int| cols[i].column_spec())
}

/// Appending one column to a projection appends its view.
pub proof fn lemma_columns_view_push(cs: Seq<Column>, c: Column)
    ensures
        columns_view(cs.push(c)) == columns_view(cs).push(column_view(c)),
{
    assert(cs.push(c).drop_last() =~= cs);
    assert(cs.push(c).last() == c);
}

/// The view of a concatenated projection is the concatenation of the views.
pub proof fn lemma_columns_view_concat(a: Seq<Column>, b: Seq<Column>)
    ensures
        columns_view(a + b) == columns_view(a) + columns_view(b),
    decreases b.len(),
{
    if b.len() == 0 {
        assert(a + b =~= a);
        assert(columns_view(a) + Seq::<ColumnView>::empty() =~= columns_view(a));
    } else {
        lemma_columns_view_concat(a, b.drop_last());
        assert((a + b).drop_last() =~= a + b.drop_last());
        assert((a + b).last() == b.last());
        assert(columns_view(a) + columns_view(b)
            =~= (columns_view(a) + columns_view(b.drop_last())).push(column_view(b.last())));
    }
}

/// Converts a list of column shorthands, preserving order.
fn convert_columns<C: TryIntoColumn>(columns: Vec<C>) -> (r: Vec<Column>)
    ensures
        columns_view(r@) == columns_spec_of(columns@),
{
    let ghost orig: Seq<C> = columns@;
    let mut rest = columns;
    let mut converted: Vec<Column> = Vec::new();
    while rest.len() > 0
        invariant
            converted@.len() + rest@.len() == orig.len(),
            rest@ =~= orig.subrange(converted@.len() as int, orig.len() as int),
            columns_view(converted@) =~= columns_spec_of(orig).take(converted@.len() as int),
        decreases rest@.len(),
    {
        let ghost k = converted@.len() as int;
        let c = rest.remove(0);
        proof {
            assert(c == orig[k]);
        }
        let col = match c.try_into_column() {
            Ok(col) => col,
            Err(_) => {
                proof {
                    assert(false);
                }
                unreached()
            },
        };
        let ghost prev = converted@;
        converted.push(col);
        proof {
            assert(rest@ =~= orig.subrange(k + 1, orig.len() as int));
            lemma_columns_view_push(prev, col);
            assert(columns_view(converted@) =~= columns_spec_of(orig).take(k + 1));
        }
    }
    proof {
        assert(columns_spec_of(orig).take(orig.len() as int) =~= columns_spec_of(orig));
    }
    converted
}

impl SelectQuery {
    /// Replaces the projection with the given columns, kept in input order.
    pub fn columns<C: TryIntoColumn>(&mut self, columns: Vec<C>) -> (ret: &mut Self)
        ensures
            ret@ == (SelectView { columns: Some(columns_spec_of(columns@)), ..old(self)@ }),
            *final(self) == *final(ret),
    {
        let converted = convert_columns(columns);
        self.columns = Some(converted);
        self
    }

    /// Appends the given columns to the projection, keeping what was already
    /// projected and the input order.
    pub fn extend_columns<C: TryIntoColumn>(&mut self, new_columns: Vec<C>) -> (ret: &mut Self)
        ensures
            ret@ == (SelectView {
                columns: Some(
                    (match old(self)@.columns {
                        Some(cs) => cs,
                        None => Seq::empty(),
                    }) + columns_spec_of(new_columns@),
                ),
                ..old(self)@
            }),
            *final(self) == *final(ret),
    {
        let mut converted = convert_columns(new_columns);
        match &mut self.columns {
            Some(cols) => {
                let ghost prev = cols@;
                let ghost add = converted@;
                cols.append(&mut converted);
                proof {
                    lemma_columns_view_concat(prev, add);
                }
            },
            None => {
                self.columns = Some(converted);
                proof {
                    assert(Seq::<ColumnView>::empty() + columns_spec_of(new_columns@)
                        =~= columns_spec_of(new_columns@));
                }
            },
        }
        self
    }

    /// Appends one column to the projection.
    pub fn push_column<C: TryIntoColumn>(&mut self, column: C) -> (ret: &mut Self)
        ensures
            ret@ == (SelectView {
                columns: Some(
                    (match old(self)@.columns {
                        Some(cs) => cs,
                        None => Seq::empty(),
                    }).push(column.column_spec()),
                ),
                ..old(self)@
            }),
            *final(self) == *final(ret),
    {
        let col = match column.try_into_column() {
            Ok(col) => col,
            Err(_) => {
                proof {
                    assert(false);
                }
                unreached()
            },
        };
        match &mut self.columns {
            Some(cols) => {
                let ghost prev = cols@;
                cols.push(col);
                proof {
                    lemma_columns_view_push(prev, col);
                }
            },
            None => {
                let mut cols: Vec<Column> = Vec::new();
                let ghost prev = cols@;
                cols.push(col);
                proof {
                    lemma_columns_view_push(prev, col);
                }
                self.columns = Some(cols);
            },
        }
        self
    }

    /// Sets the source this statement selects from.
    pub fn from<T: TryIntoArg>(&mut self, table: T) -> (ret: &mut Self)
        ensures
            ret@ == (SelectView { table: Some(table.arg_spec()), ..old(self)@ }),
            *final(self) == *final(ret),
    {
        let arg = match table.try_into_arg() {
            Ok(a) => a,
            Err(_) => {
                proof {
                    assert(false);
                }
                unreached()
            },
        };
        self.table = Some(Box::new(arg));
        self
    }

    /// Sets the row limit.
    pub fn limit(&mut self, limit: usize) -> (ret: &mut Self)
        ensures
            ret@ == (SelectView { limit: Some(limit), ..old(self)@ }),
            *final(self) == *final(ret),
    {
        self.limit = Some(limit);
        self
    }

    /// Sets the row offset.
    pub fn offset(&mut self, offset: usize) -> (ret: &mut Self)
        ensures
            ret@ == (SelectView { offset: Some(offset), ..old(self)@ }),
            *final(self) == *final(ret),
    {
        self.offset = Some(offset);
        self
    }

    /// Appends one `order by` item.
    pub fn order_by<O: TryIntoOrdering>(&mut self, ordering: O) -> (ret: &mut Self)
        ensures
            ret@ == (SelectView {
                ordering: Some(
                    (match old(self)@.ordering {
                        Some(os) => os,
                        None => Seq::empty(),
                    }).push(ordering.ordering_spec()),
                ),
                ..old(self)@
            }),
            *final(self) == *final(ret),
    {
        let order = match ordering.try_into_ordering() {
            Ok(o) => o,
            Err(_) => {
                proof {
                    assert(false);
                }
                unreached()
            },
        };
        match &mut self.ordering {
            Some(os) => {
                let ghost prev = os@;
                os.push(order);
                proof {
                    lemma_orderings_view_push(prev, order);
                }
            },
            None => {
                let mut os: Vec<Ordering> = Vec::new();
                let ghost prev = os@;
                os.push(order);
                proof {
                    lemma_orderings_view_push(prev, order);
                }
                self.ordering = Some(os);
            },
        }
        proof {
            assert(self@ =~= (SelectView {
                ordering: Some(
                    (match old(self)@.ordering {
                        Some(os) => os,
                        None => Seq::empty(),
                    }).push(ordering.ordering_spec()),
                ),
                ..old(self)@
            }));
        }
        self
    }

    /// Appends one join clause.
    fn join_internal<L: TryIntoArg, R: TryIntoArg>(
        &mut self,
        join_type: Option<&str>,
        table: &str,
        left: L,
        op: &str,
        right: R,
    )
        ensures
            final(self)@ == (SelectView {
                joins: Some(
                    (match old(self)@.joins {
                        Some(js) => js,
                        None => Seq::empty(),
                    }).push(JoinView {
                        join_type: match join_type {
                            Some(t) => Some(t@),
                            None => None,
                        },
                        table: table@,
                        left: left.arg_spec(),
                        op: op@,
                        right: right.arg_spec(),
                    }),
                ),
                ..old(self)@
            }),
    {
        let left = match left.try_into_arg() {
            Ok(a) => a,
            Err(_) => {
                proof {
                    assert(false);
                }
                unreached()
            },
        };
        let right = match right.try_into_arg() {
            Ok(a) => a,
            Err(_) => {
                proof {
                    assert(false);
                }
                unreached()
            },
        };
        let join_type_owned = match join_type {
            Some(t) => Some(t.to_owned()),
            None => None,
        };
        let join = Join::Regular(RegularJoin {
            join_type: join_type_owned,
            table: table.to_owned(),
            left,
            op: op.to_owned(),
            right,
        });
        let ghost jv = join_view(join);
        match &mut self.joins {
            Some(js) => {
                let ghost prev = js@;
                js.push(join);
                proof {
                    lemma_joins_view_push(prev, join);
                }
            },
            None => {
                let mut js: Vec<Join> = Vec::new();
                let ghost prev = js@;
                js.push(join);
                proof {
                    lemma_joins_view_push(prev, join);
                }
                self.joins = Some(js);
            },
        }
        proof {
            assert(self@ =~= (SelectView {
                joins: Some(
                    (match old(self)@.joins {
                        Some(js) => js,
                        None => Seq::empty(),
                    }).push(jv),
                ),
                ..old(self)@
            }));
        }
    }

    /// Appends a plain `join`.
    pub fn join<L: TryIntoArg, R: TryIntoArg>(
        &mut self,
        table: &str,
        left: L,
        op: &str,
        right: R,
    ) -> (ret: &mut Self)
        ensures
            ret@ == (SelectView {
                joins: Some(
                    (match old(self)@.joins {
                        Some(js) => js,
                        None => Seq::empty(),
                    }).push(JoinView {
                        join_type: None,
                        table: table@,
                        left: left.arg_spec(),
                        op: op@,
                        right: right.arg_spec(),
                    }),
                ),
                ..old(self)@
            }),
            *final(self) == *final(ret),
    {
        self.join_internal(None, table, left, op, right);
        self
    }

    /// Appends a `left join`.
    pub fn left_join<L: TryIntoArg, R: TryIntoArg>(
        &mut self,
        table: &str,
        left: L,
        op: &str,
        right: R,
    ) -> (ret: &mut Self)
        ensures
            ret@ == (SelectView {
                joins: Some(
                    (match old(self)@.joins {
                        Some(js) => js,
                        None => Seq::empty(),
                    }).push(JoinView {
                        join_type: Some("left"@),
                        table: table@,
                        left: left.arg_spec(),
                        op: op@,
                        right: right.arg_spec(),
                    }),
                ),
                ..old(self)@
            }),
            *final(self) == *final(ret),
    {
        self.join_internal(Some("left"), table, left, op, right);
        self
    }

    /// Appends a `right join`.
    pub fn right_join<L: TryIntoArg, R: TryIntoArg>(
        &mut self,
        table: &str,
        left: L,
        op: &str,
        right: R,
    ) -> (ret: &mut Self)
        ensures
            ret@ == (SelectView {
                joins: Some(
                    (match old(self)@.joins {
                        Some(js) => js,
                        None => Seq::empty(),
                    }).push(JoinView {
                        join_type: Some("right"@),
                        table: table@,
                        left: left.arg_spec(),
                        op: op@,
                        right: right.arg_spec(),
                    }),
                ),
                ..old(self)@
            }),
            *final(self) == *final(ret),
    {
        self.join_internal(Some("right"), table, left, op, right);
        self
    }

    /// Appends an `inner join`.
    pub fn inner_join<L: TryIntoArg, R: TryIntoArg>(
        &mut self,
        table: &str,
        left: L,
        op: &str,
        right: R,
    ) -> (ret: &mut Self)
        ensures
            ret@ == (SelectView {
                joins: Some(
                    (match old(self)@.joins {
                        Some(js) => js,
                        None => Seq::empty(),
                    }).push(JoinView {
                        join_type: Some("inner"@),
                        table: table@,
                        left: left.arg_spec(),
                        op: op@,
                        right: right.arg_spec(),
                    }),
                ),
                ..old(self)@
            }),
            *final(self) == *final(ret),
    {
        self.join_internal(Some("inner"), table, left, op, right);
        self
    }

    /// Sets the alias used when this statement serves as a sub-query.
    pub fn alias(&mut self, alias: &str) -> (ret: &mut Self)
        ensures
            ret@ == (SelectView { alias: Some(alias@), ..old(self)@ }),
            *final(self) == *final(ret),
    {
        self.alias = Some(alias.to_owned());
        self
    }

    /// Appends one `group by` argument.
    pub fn group_by<T: TryIntoArg>(&mut self, group: T) -> (ret: &mut Self)
        ensures
            ret@ == (SelectView {
                group_by: Some(
                    (match old(self)@.group_by {
                        Some(gs) => gs,
                        None => Seq::empty(),
                    }).push(group.arg_spec()),
                ),
                ..old(self)@
            }),
            *final(self) == *final(ret),
    {
        let arg = match group.try_into_arg() {
            Ok(a) => a,
            Err(_) => {
                proof {
                    assert(false);
                }
                unreached()
            },
        };
        match &mut self.group_by {
            Some(gs) => {
                let ghost prev = gs@;
                gs.push(arg);
                proof {
                    lemma_args_view_push(prev, arg);
                }
            },
            None => {
                let mut gs: Vec<Arg> = Vec::new();
                let ghost prev = gs@;
                gs.push(arg);
                proof {
                    lemma_args_view_push(prev, arg);
                }
                self.group_by = Some(gs);
            },
        }
        proof {
            assert(self@ =~= (SelectView {
                group_by: Some(
                    (match old(self)@.group_by {
                        Some(gs) => gs,
                        None => Seq::empty(),
                    }).push(group.arg_spec()),
                ),
                ..old(self)@
            }));
        }
        self
    }
}

impl SelectQuery {
    /// A copy of this statement, recursing into every argument and
    /// condition.
    pub fn clone(&self) -> (res: Self)
        ensures
            res@ == self@,
        decreases *self,
    {
        let res = SelectQuery {
            columns: match &self.columns {
                Some(cols) => Some(clone_columns(cols)),
                None => None,
            },
            table: match &self.table {
                Some(t) => Some(Box::new((&**t).clone())),
                None => None,
            },
            joins: match &self.joins {
                Some(js) => Some(clone_joins(js)),
                None => None,
            },
            where_: crate::query_builder::conditions::clone_conds(&self.where_),
            limit: self.limit,
            offset: self.offset,
            ordering: match &self.ordering {
                Some(os) => Some(clone_orderings(os)),
                None => None,
            },
            group_by: match &self.group_by {
                Some(gs) => Some(clone_args(gs)),
                None => None,
            },
            alias: match &self.alias {
                Some(a) => Some(a.clone()),
                None => None,
            },
        };
        proof {
            assert(res@ =~= self@);
        }
        res
    }

    /// Renders this statement for the dialect `D`: the SQL text, and the
    /// bound values in placeholder order, numbered from 1. A raw fragment
    /// whose marker count does not match its supplied values is rejected.
    pub fn sql<D: SqlDialect>(&self) -> (r: Result<Sql, Error>)
        ensures
            select_ok(self@) ==> (r matches Ok(sql) && sql.sql@ == select_text(
                self@,
                D::quote_spec(),
                0,
            ) && sql.bindings.deep_view() == select_vals(self@) && sql.dialect
                == D::dialect_spec()),
            !select_ok(self@) ==> r == Err::<Sql, Error>(
                Error { kind: ErrorKind::RawBindingsMismatch },
            ),
    {
        if !check_select(self) {
            return Err(Error::new(ErrorKind::RawBindingsMismatch));
        }
        let mut writer = SqlWriter::new(D::relation_quote());
        writer.build_select(self);
        proof {
            assert(writer.sql@ =~= select_text(self@, D::quote_spec(), 0));
            assert(writer.bindings.deep_view() =~= select_vals(self@));
        }
        Ok(writer.into_sql(D::dialect()))
    }

    /// Renders this statement and hands it to the dialect's driver
    /// builder, which then holds the rendered text and the bound values in
    /// placeholder order.
    pub fn sqlx_qb<D: SqlDialect>(&self) -> (r: Result<D::SqlxQb, Error>)
        ensures
            select_ok(self@) ==> (r matches Ok(b) && D::qb_sql(b) == select_text(
                self@,
                D::quote_spec(),
                0,
            ) && (D::accepts(select_vals(self@)) ==> D::qb_args(b) == select_vals(self@))),
            !select_ok(self@) ==> r == Err::<D::SqlxQb, Error>(
                Error { kind: ErrorKind::RawBindingsMismatch },
            ),
    {
        match self.sql::<D>() {
            Ok(sql) => Ok(D::into_sqlx_qb(sql)),
            Err(e) => Err(e),
        }
    }
}

impl PushCondition for SelectQuery {
    open spec fn conds_spec(&self) -> Seq<CondView> {
        conds_view(self.where_@)
    }

    open spec fn same_but_conds(&self, other: &Self) -> bool {
        self@ == (SelectView { where_: self@.where_, ..other@ })
    }

    fn push_cond(&mut self, cond: WhereCondition) {
        let ghost prev = self.where_@;
        self.where_.push(cond);
        proof {
            assert(self.where_@.drop_last() =~= prev);
        }
    }
}

impl Conditions for SelectQuery {

}

} // verus!
