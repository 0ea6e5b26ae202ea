use vstd::prelude::*;

use crate::error::{Error, ErrorKind};
use crate::query_builder::conditions::{CondView, Conditions, PushCondition, WhereCondition, conds_view};
use crate::query_builder::value::{Value, ValueView};
use crate::sql_dialect::model::{update_ok, update_text, update_vals};
use crate::sql_dialect::{Sql, SqlDialect, SqlWriter, check_conds};

verus! {

/// An update statement: target table, the (column, value) pairs supplied by
/// a row mapping, and the condition tree.
#[derive(Debug)]
pub struct UpdateQuery {
    pub table: Option<String>,
    pub columns: Vec<String>,
    pub values: Vec<Value>,
    pub where_clause: Vec<WhereCondition>,
}

/// The mathematical shape of an update statement.
#[verifier::ext_equal]
pub struct UpdateView {
    pub table: Option<Seq<char>>,
    pub columns: Seq<Seq<char>>,
    pub values: Seq<ValueView>,
    pub where_clause: Seq<CondView>,
}

/// The view of an update statement.
pub open spec fn update_view(q: UpdateQuery) -> UpdateView {
    UpdateView {
        table: match q.table {
            Some(t) => Some(t@),
            None => None,
        },
        columns: q.columns.deep_view(),
        values: q.values.deep_view(),
        where_clause: conds_view(q.where_clause@),
    }
}

impl View for UpdateQuery {
    type V = UpdateView;

    open spec fn view(&self) -> UpdateView {
        update_view(*self)
    }
}

impl Default for UpdateQuery {
    /// An update with nothing set.
    fn default() -> (q: Self)
        ensures
            q@ == (UpdateView {
                table: None,
                columns: Seq::empty(),
                values: Seq::empty(),
                where_clause: Seq::empty(),
            }),
    {
        UpdateQuery { table: None, columns: Vec::new(), values: Vec::new(), where_clause: Vec::new() }
    }
}

impl UpdateQuery {
    /// Sets the target table.
    pub fn table(&mut self, table: &str) -> (ret: &mut Self)
        ensures
            ret@ == (UpdateView { table: Some(table@), ..old(self)@ }),
            *final(self) == *final(ret),
    {
        self.table = Some(table.to_owned());
        self
    }
}

impl UpdateQuery {
    /// Renders this statement for the dialect `D`: the SQL text, and the
    /// bound values in placeholder order — the row values first, numbered
    /// from 1, then the condition values. A raw fragment whose marker count
    /// does not match its supplied values is rejected.
    pub fn sql<D: SqlDialect>(&self) -> (r: Result<Sql, Error>)
        ensures
            update_ok(self@) ==> (r matches Ok(sql) && sql.sql@ == update_text(
                self@,
                D::quote_spec(),
            ) && sql.bindings.deep_view() == update_vals(self@) && sql.dialect
                == D::dialect_spec()),
            !update_ok(self@) ==> r == Err::<Sql, Error>(
                Error { kind: ErrorKind::RawBindingsMismatch },
            ),
    {
        if !check_conds(&self.where_clause) {
            return Err(Error::new(ErrorKind::RawBindingsMismatch));
        }
        let mut writer = SqlWriter::new(D::relation_quote());
        writer.build_update(self);
        proof {
            assert(writer.sql@ =~= update_text(self@, D::quote_spec()));
        }
        Ok(writer.into_sql(D::dialect()))
    }

    /// Renders this statement and hands it to the dialect's driver
    /// builder, which then holds the rendered text and the bound values in
    /// placeholder order.
    pub fn sqlx_qb<D: SqlDialect>(&self) -> (r: Result<D::SqlxQb, Error>)
        ensures
            update_ok(self@) ==> (r matches Ok(b) && D::qb_sql(b) == update_text(
                self@,
                D::quote_spec(),
            ) && (D::accepts(update_vals(self@)) ==> D::qb_args(b) == update_vals(self@))),
            !update_ok(self@) ==> r == Err::<D::SqlxQb, Error>(
                Error { kind: ErrorKind::RawBindingsMismatch },
            ),
    {
        match self.sql::<D>() {
            Ok(sql) => Ok(D::into_sqlx_qb(sql)),
            Err(e) => Err(e),
        }
    }
}

impl PushCondition for UpdateQuery {
    open spec fn conds_spec(&self) -> Seq<CondView> {
        conds_view(self.where_clause@)
    }

    open spec fn same_but_conds(&self, other: &Self) -> bool {
        self@ == (UpdateView { where_clause: self@.where_clause, ..other@ })
    }

    fn push_cond(&mut self, cond: WhereCondition) {
        let ghost prev = self.where_clause@;
        self.where_clause.push(cond);
        proof {
            assert(self.where_clause@.drop_last() =~= prev);
        }
    }
}

impl Conditions for UpdateQuery {

}

} // verus!
