use vstd::prelude::*;

use crate::error::{Error, ErrorKind};
use crate::query_builder::qb_arg::subquery::SubQuery;
use crate::sql_dialect::model::{insert_ok, insert_text, insert_vals};
use crate::sql_dialect::{Sql, SqlDialect, SqlWriter};
use crate::query_builder::query::select::{SelectQuery, SelectView, select_view};
use crate::query_builder::row::{Row, RowBuilder, rows_spec};
use crate::query_builder::value::{Value, ValueView};

verus! {

/// The payload of an insert fed by literal rows: the flattened value
/// sequence, one row after another.
#[derive(Debug)]
pub struct InsertWithValues {
    pub bindings: Vec<Value>,
}

/// The payload of an insert fed by a sub-query.
#[derive(Debug)]
pub struct InsertFromSubQuery {
    pub sub_query: SubQuery,
}

/// The source an insert draws its rows from.
#[derive(Debug)]
pub enum InsertType {
    WithValues(InsertWithValues),
    FromSubQuery(InsertFromSubQuery),
}

/// The mathematical shape of an insert source.
#[verifier::ext_equal]
pub enum InsertTypeView {
    WithValues(Seq<ValueView>),
    FromSubQuery(Box<SelectView>),
}

/// An insert statement: target table, ordered column names, and the row
/// source.
#[derive(Debug)]
pub struct InsertQuery {
    pub table: Option<String>,
    pub ordered_columns: Option<Vec<String>>,
    pub inner: InsertType,
}

/// The mathematical shape of an insert statement.
#[verifier::ext_equal]
pub struct InsertView {
    pub table: Option<Seq<char>>,
    pub ordered_columns: Option<Seq<Seq<char>>>,
    pub inner: InsertTypeView,
}

/// The view of an insert statement.
pub open spec fn insert_view(q: InsertQuery) -> InsertView {
    InsertView {
        table: match q.table {
            Some(t) => Some(t@),
            None => None,
        },
        ordered_columns: match q.ordered_columns {
            Some(cols) => Some(cols.deep_view()),
            None => None,
        },
        inner: match q.inner {
            InsertType::WithValues(w) => InsertTypeView::WithValues(w.bindings.deep_view()),
            InsertType::FromSubQuery(s) => InsertTypeView::FromSubQuery(
                Box::new(select_view(*s.sub_query.0)),
            ),
        },
    }
}

impl View for InsertQuery {
    type V = InsertView;

    open spec fn view(&self) -> InsertView {
        insert_view(*self)
    }
}

impl Default for InsertQuery {
    /// An insert with nothing set and no rows.
    fn default() -> (q: Self)
        ensures
            q@ == (InsertView {
                table: None,
                ordered_columns: None,
                inner: InsertTypeView::WithValues(Seq::empty()),
            }),
    {
        InsertQuery {
            table: None,
            ordered_columns: None,
            inner: InsertType::WithValues(InsertWithValues { bindings: Vec::new() }),
        }
    }
}

impl InsertQuery {
    /// Sets the target table.
    pub fn into_(&mut self, table: &str) -> (ret: &mut Self)
        ensures
            ret@ == (InsertView { table: Some(table@), ..old(self)@ }),
            *final(self) == *final(ret),
    {
        self.table = Some(table.to_owned());
        self
    }

    /// Appends one typed record as a row: the record's declared columns
    /// become the declared column list and its values, one per column in
    /// declared order, are appended to the flattened sequence. On an insert
    /// fed from a sub-query the statement is left unchanged and the misuse
    /// is reported as a recoverable error.
    pub fn value<R: Row>(&mut self, row: R) -> (r: Result<&mut Self, Error>)
        ensures
            old(self)@.inner is WithValues ==> (r matches Ok(ret) && ret@ == (InsertView {
                ordered_columns: Some(R::columns_spec()),
                inner: InsertTypeView::WithValues(
                    old(self)@.inner->WithValues_0 + row.row_spec(),
                ),
                ..old(self)@
            }) && *final(self) == *final(ret)),
            old(self)@.inner is FromSubQuery ==> (r matches Err(e) && e == (Error {
                kind: ErrorKind::InsertFromSubQueryUnsupported,
            }) && *final(self) == *old(self)),
    {
        match &self.inner {
            InsertType::FromSubQuery(_) => {
                return Err(Error::new(ErrorKind::InsertFromSubQueryUnsupported));
            },
            InsertType::WithValues(_) => {},
        }
        let ghost rspec = row.row_spec();
        let cols = R::columns();
        let mut builder = RowBuilder::new();
        row.into_row(&mut builder);
        self.ordered_columns = Some(cols);
        let mut vals = builder.values;
        proof {
            assert(vals.deep_view() =~= rspec);
        }
        match &mut self.inner {
            InsertType::WithValues(w) => {
                w.bindings.append(&mut vals);
            },
            InsertType::FromSubQuery(_) => {
                proof {
                    assert(false);
                }
            },
        }
        proof {
            assert(self@.inner->WithValues_0 =~= old(self)@.inner->WithValues_0 + rspec);
            assert(self@ =~= (InsertView {
                ordered_columns: Some(R::columns_spec()),
                inner: InsertTypeView::WithValues(old(self)@.inner->WithValues_0 + rspec),
                ..old(self)@
            }));
        }
        Ok(self)
    }

    /// Appends each record of the list as one row, in list order: the
    /// records' declared columns become the declared column list and each
    /// record's values, one per column in declared order, extend the
    /// flattened sequence. On an insert fed from a sub-query the statement
    /// is left unchanged and the misuse is reported as a recoverable error.
    pub fn values<R: Row>(&mut self, rows: Vec<R>) -> (r: Result<&mut Self, Error>)
        ensures
            old(self)@.inner is WithValues ==> (r matches Ok(ret) && ret@ == (InsertView {
                ordered_columns: Some(R::columns_spec()),
                inner: InsertTypeView::WithValues(
                    old(self)@.inner->WithValues_0 + rows_spec(rows@),
                ),
                ..old(self)@
            }) && *final(self) == *final(ret)),
            old(self)@.inner is FromSubQuery ==> (r matches Err(e) && e == (Error {
                kind: ErrorKind::InsertFromSubQueryUnsupported,
            }) && *final(self) == *old(self)),
    {
        match &self.inner {
            InsertType::FromSubQuery(_) => {
                return Err(Error::new(ErrorKind::InsertFromSubQueryUnsupported));
            },
            InsertType::WithValues(_) => {},
        }
        let cols = R::columns();
        self.ordered_columns = Some(cols);
        let ghost tbl = self@.table;
        let ghost base: Seq<ValueView> = self@.inner->WithValues_0;
        let mut rest = rows;
        let ghost orig: Seq<R> = rest@;
        proof {
            assert(base + rows_spec(orig) =~= self@.inner->WithValues_0 + rows_spec(rest@));
        }
        while rest.len() > 0
            invariant
                self@.inner is WithValues,
                self@.table == tbl,
                self@.ordered_columns == Some(R::columns_spec()),
                base + rows_spec(orig) =~= self@.inner->WithValues_0 + rows_spec(rest@),
            decreases rest@.len(),
        {
            let ghost pre_rest = rest@;
            let ghost pre_vals = self@.inner->WithValues_0;
            let row = rest.remove(0);
            let ghost rspec = row.row_spec();
            let mut builder = RowBuilder::new();
            row.into_row(&mut builder);
            let mut vals = builder.values;
            proof {
                assert(vals.deep_view() =~= rspec);
                assert(rest@ =~= pre_rest.skip(1));
                assert(pre_rest[0] == row);
            }
            match &mut self.inner {
                InsertType::WithValues(w) => {
                    w.bindings.append(&mut vals);
                },
                InsertType::FromSubQuery(_) => {
                    proof {
                        assert(false);
                    }
                },
            }
            proof {
                assert(self@.inner->WithValues_0 =~= pre_vals + rspec);
                assert(rows_spec(pre_rest) == rspec + rows_spec(rest@));
                assert(base + rows_spec(orig) =~= self@.inner->WithValues_0 + rows_spec(rest@));
            }
        }
        proof {
            assert(rows_spec(rest@) =~= Seq::<ValueView>::empty());
            assert(self@.inner->WithValues_0 =~= base + rows_spec(orig));
            assert(self@ =~= (InsertView {
                ordered_columns: Some(R::columns_spec()),
                inner: InsertTypeView::WithValues(old(self)@.inner->WithValues_0 + rows_spec(
                    rows@,
                )),
                ..old(self)@
            }));
        }
        Ok(self)
    }

    /// Appends one declared column name.
    pub fn push_column(&mut self, column: &str) -> (ret: &mut Self)
        ensures
            ret@ == (InsertView {
                ordered_columns: Some(
                    (match old(self)@.ordered_columns {
                        Some(cs) => cs,
                        None => Seq::empty(),
                    }).push(column@),
                ),
                ..old(self)@
            }),
            *final(self) == *final(ret),
    {
        match &mut self.ordered_columns {
            Some(cols) => {
                let ghost prev = cols.deep_view();
                cols.push(column.to_owned());
                proof {
                    assert(cols.deep_view() =~= prev.push(column@));
                }
            },
            None => {
                let mut cols: Vec<String> = Vec::new();
                cols.push(column.to_owned());
                proof {
                    assert(cols.deep_view() =~= Seq::<Seq<char>>::empty().push(column@));
                }
                self.ordered_columns = Some(cols);
            },
        }
        self
    }

    /// Appends each of the given column names, in order.
    pub fn extend_columns(&mut self, new_columns: Vec<String>) -> (ret: &mut Self)
        ensures
            ret@ == (InsertView {
                ordered_columns: Some(
                    (match old(self)@.ordered_columns {
                        Some(cs) => cs,
                        None => Seq::empty(),
                    }) + new_columns.deep_view(),
                ),
                ..old(self)@
            }),
            *final(self) == *final(ret),
    {
        let mut add = new_columns;
        match &mut self.ordered_columns {
            Some(cols) => {
                let ghost prev = cols.deep_view();
                let ghost added = add.deep_view();
                cols.append(&mut add);
                proof {
                    assert(cols.deep_view() =~= prev + added);
                }
            },
            None => {
                proof {
                    assert(Seq::<Seq<char>>::empty() + add.deep_view() =~= add.deep_view());
                }
                self.ordered_columns = Some(add);
            },
        }
        self
    }

    /// Replaces the declared column list.
    pub fn columns(&mut self, columns: Vec<String>) -> (ret: &mut Self)
        ensures
            ret@ == (InsertView { ordered_columns: Some(columns.deep_view()), ..old(self)@ }),
            *final(self) == *final(ret),
    {
        self.ordered_columns = Some(columns);
        self
    }

    /// Renders this statement for the dialect `D`: the SQL text, and the
    /// bound values in placeholder order, numbered from 1. An insert fed
    /// from a sub-query is reported as unsupported; one whose value count
    /// is not a positive multiple of its declared column count is rejected.
    pub fn sql<D: SqlDialect>(&self) -> (r: Result<Sql, Error>)
        ensures
            insert_ok(self@) ==> (r matches Ok(sql) && sql.sql@ == insert_text(
                self@,
                D::quote_spec(),
            ) && sql.bindings.deep_view() == insert_vals(self@) && sql.dialect
                == D::dialect_spec()),
            self@.inner is FromSubQuery ==> r == Err::<Sql, Error>(
                Error { kind: ErrorKind::InsertFromSubQueryUnsupported },
            ),
            self@.inner is WithValues && !insert_ok(self@) ==> r == Err::<Sql, Error>(
                Error { kind: ErrorKind::InsertShapeMismatch },
            ),
    {
        match &self.inner {
            InsertType::FromSubQuery(_) => {
                return Err(Error::new(ErrorKind::InsertFromSubQueryUnsupported));
            },
            InsertType::WithValues(w) => {
                if w.bindings.len() > 0 {
                    let shape_ok = match &self.ordered_columns {
                        Some(cols) => cols.len() > 0 && w.bindings.len() % cols.len() == 0,
                        None => false,
                    };
                    if !shape_ok {
                        return Err(Error::new(ErrorKind::InsertShapeMismatch));
                    }
                }
            },
        }
        let mut writer = SqlWriter::new(D::relation_quote());
        writer.build_insert(self);
        proof {
            assert(writer.sql@ =~= insert_text(self@, D::quote_spec()));
        }
        Ok(writer.into_sql(D::dialect()))
    }

    /// Renders this statement and hands it to the dialect's driver
    /// builder, which then holds the rendered text and the bound values in
    /// placeholder order.
    pub fn sqlx_qb<D: SqlDialect>(&self) -> (r: Result<D::SqlxQb, Error>)
        ensures
            insert_ok(self@) ==> (r matches Ok(b) && D::qb_sql(b) == insert_text(
                self@,
                D::quote_spec(),
            ) && (D::accepts(insert_vals(self@)) ==> D::qb_args(b) == insert_vals(self@))),
            self@.inner is FromSubQuery ==> r == Err::<D::SqlxQb, Error>(
                Error { kind: ErrorKind::InsertFromSubQueryUnsupported },
            ),
            self@.inner is WithValues && !insert_ok(self@) ==> r == Err::<D::SqlxQb, Error>(
                Error { kind: ErrorKind::InsertShapeMismatch },
            ),
    {
        match self.sql::<D>() {
            Ok(sql) => Ok(D::into_sqlx_qb(sql)),
            Err(e) => Err(e),
        }
    }

    /// Replaces the row source with a sub-query. No dialect renders this
    /// source yet: a later render call reports it as unsupported.
    pub fn from_sub_query(&mut self, s: SelectQuery) -> (ret: &mut Self)
        ensures
            ret@ == (InsertView {
                inner: InsertTypeView::FromSubQuery(Box::new(s@)),
                ..old(self)@
            }),
            *final(self) == *final(ret),
    {
        self.inner = InsertType::FromSubQuery(InsertFromSubQuery {
            sub_query: SubQuery(Box::new(s)),
        });
        self
    }
}

} // verus!
