use vstd::prelude::*;

use crate::error::{Error, ErrorKind};
use crate::query_builder::conditions::{CondView, Conditions, PushCondition, WhereCondition, conds_view};
use crate::sql_dialect::model::{delete_ok, delete_text, delete_vals};
use crate::sql_dialect::{Sql, SqlDialect, SqlWriter, check_conds};

verus! {

/// A delete statement: target table and condition tree.
#[derive(Debug)]
pub struct DeleteQuery {
    pub table: Option<String>,
    pub where_clause: Vec<WhereCondition>,
}

/// The mathematical shape of a delete statement.
#[verifier::ext_equal]
pub struct DeleteView {
    pub table: Option<Seq<char>>,
    pub where_clause: Seq<CondView>,
}

/// The view of a delete statement.
pub open spec fn delete_view(q: DeleteQuery) -> DeleteView {
    DeleteView {
        table: match q.table {
            Some(t) => Some(t@),
            None => None,
        },
        where_clause: conds_view(q.where_clause@),
    }
}

impl View for DeleteQuery {
    type V = DeleteView;

    open spec fn view(&self) -> DeleteView {
        delete_view(*self)
    }
}

impl Default for DeleteQuery {
    /// A delete with nothing set.
    fn default() -> (q: Self)
        ensures
            q@ == (DeleteView { table: None, where_clause: Seq::empty() }),
    {
        DeleteQuery { table: None, where_clause: Vec::new() }
    }
}

impl DeleteQuery {
    /// Sets the table rows are deleted from.
    pub fn from(&mut self, table: &str) -> (ret: &mut Self)
        ensures
            ret@ == (DeleteView { table: Some(table@), ..old(self)@ }),
            *final(self) == *final(ret),
    {
        self.table = Some(table.to_owned());
        self
    }
}

impl DeleteQuery {
    /// Renders this statement for the dialect `D`: the SQL text, and the
    /// bound values in placeholder order, numbered from 1. A raw fragment
    /// whose marker count does not match its supplied values is rejected.
    pub fn sql<D: SqlDialect>(&self) -> (r: Result<Sql, Error>)
        ensures
            delete_ok(self@) ==> (r matches Ok(sql) && sql.sql@ == delete_text(
                self@,
                D::quote_spec(),
            ) && sql.bindings.deep_view() == delete_vals(self@) && sql.dialect
                == D::dialect_spec()),
            !delete_ok(self@) ==> r == Err::<Sql, Error>(
                Error { kind: ErrorKind::RawBindingsMismatch },
            ),
    {
        if !check_conds(&self.where_clause) {
            return Err(Error::new(ErrorKind::RawBindingsMismatch));
        }
        let mut writer = SqlWriter::new(D::relation_quote());
        writer.build_delete(self);
        proof {
            assert(writer.sql@ =~= delete_text(self@, D::quote_spec()));
        }
        Ok(writer.into_sql(D::dialect()))
    }

    /// Renders this statement and hands it to the dialect's driver
    /// builder, which then holds the rendered text and the bound values in
    /// placeholder order.
    pub fn sqlx_qb<D: SqlDialect>(&self) -> (r: Result<D::SqlxQb, Error>)
        ensures
            delete_ok(self@) ==> (r matches Ok(b) && D::qb_sql(b) == delete_text(
                self@,
                D::quote_spec(),
            ) && (D::accepts(delete_vals(self@)) ==> D::qb_args(b) == delete_vals(self@))),
            !delete_ok(self@) ==> r == Err::<D::SqlxQb, Error>(
                Error { kind: ErrorKind::RawBindingsMismatch },
            ),
    {
        match self.sql::<D>() {
            Ok(sql) => Ok(D::into_sqlx_qb(sql)),
            Err(e) => Err(e),
        }
    }
}

impl PushCondition for DeleteQuery {
    open spec fn conds_spec(&self) -> Seq<CondView> {
        conds_view(self.where_clause@)
    }

    open spec fn same_but_conds(&self, other: &Self) -> bool {
        self@.table == other@.table
    }

    fn push_cond(&mut self, cond: WhereCondition) {
        let ghost prev = self.where_clause@;
        self.where_clause.push(cond);
        proof {
            assert(self.where_clause@.drop_last() =~= prev);
        }
    }
}

impl Conditions for DeleteQuery {

}

} // verus!
