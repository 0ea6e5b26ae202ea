pub mod model;
pub mod postgres;

use vstd::prelude::*;
use vstd::string::StrSliceExecFns;
use vstd::string::StringExecFns;

use crate::query_builder::conditions::{
    cond_view, conds_view, lemma_conds_view_index, ConditionOp, WhereCondition,
};
use crate::query_builder::qb_arg::raw::{raw_view, Raw};
use crate::query_builder::qb_arg::{Arg, ArgValue, SqlKeyword};
use crate::query_builder::query::select::column::{
    column_view, columns_view, lemma_columns_view_index, Column,
};
use crate::query_builder::query::select::join::{join_view, joins_view, lemma_joins_view_index, Join};
use crate::query_builder::query::select::ordering::{
    lemma_orderings_view_index, ordering_view, orderings_view, Ordering,
};
use crate::query_builder::query::select::SelectQuery;
use crate::query_builder::value::{Value, ValueView};
use model::{
    arg_ok, arg_text, arg_vals, column_vals, columns_ok, columns_text, columns_vals, cond_ok,
    cond_text, cond_vals, conds_ok, conds_text, conds_vals, dec_digits, digit_char, join_vals,
    joins_ok, joins_text, joins_vals, lemma_first_dot_at, marker_count, ordering_vals,
    orderings_ok, orderings_text, orderings_vals, placeholder, projection_text, projection_vals,
    quoted_segment, raw_text, relation_text, select_ok, select_text, select_vals, values_text,
    where_text,
};

verus! {

/// The SQL backends this crate can render for.
#[derive(Debug, Clone, Copy, PartialEq, Eq, Structural)]
pub enum Dialect {
    Postgres,
}

/// A rendered statement: the SQL text and the bound values, in the exact
/// order their placeholders appear in the text.
#[derive(Debug)]
pub struct Sql {
    pub sql: String,
    pub bindings: Vec<Value>,
    pub dialect: Dialect,
}

/// The output accumulator the rendering algorithm writes into: the text so
/// far, the values bound so far, and the dialect's identifier quote. The
/// algorithm is written once against this accumulator; dialects only choose
/// the quote character.
#[derive(Debug)]
pub struct SqlWriter {
    pub sql: String,
    pub bindings: Vec<Value>,
    pub quote: char,
}

impl SqlWriter {
    /// An empty accumulator for the given identifier quote.
    pub fn new(quote: char) -> (w: SqlWriter)
        ensures
            w.sql@ == Seq::<char>::empty(),
            w.bindings.deep_view() == Seq::<ValueView>::empty(),
            w.quote == quote,
    {
        let w = SqlWriter { sql: String::new(), bindings: Vec::new(), quote };
        proof {
            assert(w.bindings.deep_view() =~= Seq::<ValueView>::empty());
        }
        w
    }

    /// Appends literal text.
    pub fn write_str(&mut self, s: &str)
        ensures
            final(self).sql@ == old(self).sql@ + s@,
            final(self).bindings == old(self).bindings,
            final(self).quote == old(self).quote,
    {
        self.sql.append(s);
    }

    /// Appends one character.
    ///
    /// Relies on `String::push`: it appends exactly the given character.
    #[verifier::external_body]
    pub fn write_char(&mut self, c: char)
        ensures
            final(self).sql@ == old(self).sql@.push(c),
            final(self).bindings == old(self).bindings,
            final(self).quote == old(self).quote,
    {
        self.sql.push(c);
    }

    /// Appends one value to the bound-value list and returns its 1-based
    /// position.
    pub fn push_binding(&mut self, value: Value) -> (idx: usize)
        ensures
            final(self).bindings.deep_view() == old(self).bindings.deep_view().push(value@),
            idx == old(self).bindings.deep_view().len() + 1,
            final(self).sql == old(self).sql,
            final(self).quote == old(self).quote,
    {
        self.bindings.push(value);
        proof {
            assert(self.bindings.deep_view() =~= old(self).bindings.deep_view().push(value@));
        }
        self.bindings.len()
    }

    /// The number of values bound so far.
    pub fn bindings_count(&self) -> (n: usize)
        ensures
            n == self.bindings.deep_view().len(),
    {
        self.bindings.len()
    }

    /// Appends the decimal digits of `n`.
    pub fn write_usize(&mut self, n: usize)
        ensures
            final(self).sql@ == old(self).sql@ + dec_digits(n as nat),
            final(self).bindings == old(self).bindings,
            final(self).quote == old(self).quote,
        decreases n,
    {
        if n >= 10 {
            self.write_usize(n / 10);
        }
        let d = n % 10;
        let c = match d {
            0 => '0',
            1 => '1',
            2 => '2',
            3 => '3',
            4 => '4',
            5 => '5',
            6 => '6',
            7 => '7',
            8 => '8',
            _ => '9',
        };
        proof {
            assert(c == digit_char((n % 10) as nat));
        }
        self.write_char(c);
        proof {
            if n >= 10 {
                assert(self.sql@ =~= old(self).sql@ + dec_digits(n as nat));
            } else {
                assert(old(self).sql@ + dec_digits(n as nat) =~= old(self).sql@.push(c));
            }
        }
    }

    /// Appends the placeholder numbered `n`.
    pub fn write_placeholder(&mut self, n: usize)
        ensures
            final(self).sql@ == old(self).sql@ + model::placeholder(n as nat),
            final(self).bindings == old(self).bindings,
            final(self).quote == old(self).quote,
    {
        self.write_char('$');
        self.write_usize(n);
        proof {
            assert(self.sql@ =~= old(self).sql@ + model::placeholder(n as nat));
        }
    }

    /// Appends a possibly dotted identifier, quoting each dot-separated
    /// segment with the dialect's quote, except a `*` segment.
    pub fn write_relation(&mut self, relation: &str)
        ensures
            final(self).sql@ == old(self).sql@ + relation_text(relation@, old(self).quote),
            final(self).bindings == old(self).bindings,
            final(self).quote == old(self).quote,
        decreases relation@.len(),
    {
        let n = relation.unicode_len();
        let mut i: usize = 0;
        while i < n && relation.get_char(i) != '.'
            invariant
                0 <= i <= n,
                n == relation@.len(),
                forall|j: int| 0 <= j < i ==> relation@[j] != '.',
            decreases n - i,
        {
            i += 1;
        }
        proof {
            lemma_first_dot_at(relation@, i as int);
        }
        let segment = relation.substring_char(0, i);
        proof {
            assert(segment@ =~= relation@.take(i as int));
        }
        if i == 1 && relation.get_char(0) == '*' {
            self.write_char('*');
            proof {
                assert(segment@ =~= seq!['*']);
                assert(quoted_segment(segment@, self.quote) =~= seq!['*']);
                assert(self.sql@ =~= old(self).sql@ + quoted_segment(segment@, old(self).quote));
            }
        } else {
            let q = self.quote;
            self.write_char(q);
            self.write_str(segment);
            self.write_char(q);
            proof {
                assert(segment@ != seq!['*']) by {
                    if segment@ == seq!['*'] {
                        assert(segment@.len() == 1);
                        assert(i == 1);
                        assert(relation@.take(1int)[0] == relation@[0]);
                        assert(relation@[0] == segment@[0]);
                        assert(relation@[0] == '*');
                        assert(false);
                    }
                }
                assert(self.sql@ =~= old(self).sql@ + quoted_segment(segment@, old(self).quote));
            }
        }
        if i < n {
            self.write_char('.');
            let rest = relation.substring_char(i + 1, n);
            proof {
                assert(rest@ =~= relation@.skip(i as int + 1));
            }
            self.write_relation(rest);
            proof {
                assert(self.sql@ =~= old(self).sql@ + relation_text(relation@, old(self).quote));
            }
        } else {
            proof {
                assert(segment@ =~= relation@);
                assert(self.sql@ =~= old(self).sql@ + relation_text(relation@, old(self).quote));
            }
        }
    }

    /// Hands the finished text and bound values over, tagged with the
    /// dialect they were rendered for.
    pub fn into_sql(self, dialect: Dialect) -> (r: Sql)
        ensures
            r.sql == self.sql,
            r.bindings == self.bindings,
            r.dialect == dialect,
    {
        Sql { sql: self.sql, bindings: self.bindings, dialect }
    }
}


impl SqlWriter {
    /// Renders a parenthesized list of fresh placeholders, one per value,
    /// and binds the values in order.
    pub fn write_values(&mut self, vs: &Vec<Value>)
        ensures
            final(self).sql@ == old(self).sql@ + seq!['('] + values_text(
                vs.deep_view().len(),
                old(self).bindings.deep_view().len(),
            ) + seq![')'],
            final(self).bindings.deep_view() == old(self).bindings.deep_view() + vs.deep_view(),
            final(self).quote == old(self).quote,
    {
        let ghost sql0 = self.sql@;
        let ghost b0 = self.bindings.deep_view();
        let ghost qg = self.quote;
        self.write_char('(');
        let n = vs.len();
        let mut i: usize = 0;
        while i < n
            invariant
                0 <= i <= n,
                n == vs@.len(),
                self.quote == qg,
                self.sql@ =~= sql0 + seq!['('] + values_text(i as nat, b0.len()),
                self.bindings.deep_view() =~= b0 + vs.deep_view().take(i as int),
            decreases n - i,
        {
            if i > 0 {
                self.write_char(',');
                self.write_char(' ');
            }
            let v = vs[i].clone();
            let idx = self.push_binding(v);
            self.write_placeholder(idx);
            proof {
                assert(vs.deep_view().take(i as int).len() == i);
                assert(idx == b0.len() + i + 1);
                if i == 0 {
                    assert(self.sql@ =~= sql0 + seq!['('] + values_text((i + 1) as nat, b0.len()));
                } else {
                    assert(values_text((i + 1) as nat, b0.len()) =~= values_text(i as nat, b0.len())
                        + seq![',', ' '] + placeholder((b0.len() + i + 1) as nat));
                    assert(self.sql@ =~= sql0 + seq!['('] + values_text((i + 1) as nat, b0.len()));
                }
                assert(vs.deep_view()[i as int] == vs@[i as int]@);
                assert(self.bindings.deep_view() =~= b0 + vs.deep_view().take(i as int + 1));
            }
            i += 1;
        }
        self.write_char(')');
        proof {
            assert(vs.deep_view().take(n as int) =~= vs.deep_view());
            assert(self.sql@ =~= sql0 + seq!['('] + values_text(vs.deep_view().len(), b0.len())
                + seq![')']);
        }
    }

    /// Renders a raw fragment: binds its attached values, then copies the
    /// text, turning each `?` marker into the next fresh placeholder.
    pub fn write_raw(&mut self, raw: &Raw)
        requires
            marker_count(raw@.sql) == (match raw@.bindings {
                Some(b) => b.len(),
                None => 0,
            }),
        ensures
            final(self).sql@ == old(self).sql@ + raw_text(
                raw@.sql,
                old(self).bindings.deep_view().len(),
            ),
            final(self).bindings.deep_view() == old(self).bindings.deep_view() + (match raw@.bindings {
                Some(b) => b,
                None => Seq::empty(),
            }),
            final(self).quote == old(self).quote,
    {
        let ghost sql0 = self.sql@;
        let ghost b0 = self.bindings.deep_view();
        let ghost qg = self.quote;
        let k = self.bindings_count();
        match &raw.bindings {
            Some(bs) => {
                let m = bs.len();
                let mut j: usize = 0;
                while j < m
                    invariant
                        0 <= j <= m,
                        m == bs@.len(),
                        self.quote == qg,
                        self.sql@ == sql0,
                        self.bindings.deep_view() =~= b0 + bs.deep_view().take(j as int),
                    decreases m - j,
                {
                    let v = bs[j].clone();
                    self.push_binding(v);
                    proof {
                        assert(self.bindings.deep_view() =~= b0 + bs.deep_view().take(
                            j as int + 1,
                        ));
                    }
                    j += 1;
                }
                proof {
                    assert(bs.deep_view().take(m as int) =~= bs.deep_view());
                }
            },
            None => {},
        }
        let ghost bafter = self.bindings.deep_view();
        let total = self.bindings_count();
        let n = raw.sql.unicode_len();
        let mut i: usize = 0;
        let mut seen: usize = 0;
        proof {
            assert(raw.sql@.skip(0) =~= raw.sql@);
            assert(sql0 + raw_text(raw.sql@, k as nat) =~= self.sql@ + raw_text(
                raw.sql@.skip(0),
                (k + seen) as nat,
            ));
        }
        while i < n
            invariant
                0 <= i <= n,
                n == raw.sql@.len(),
                self.quote == qg,
                self.bindings.deep_view() == bafter,
                total == bafter.len(),
                k == b0.len(),
                seen + marker_count(raw.sql@.skip(i as int)) == marker_count(raw.sql@),
                k + marker_count(raw.sql@) == total,
                sql0 + raw_text(raw.sql@, k as nat) =~= self.sql@ + raw_text(
                    raw.sql@.skip(i as int),
                    (k + seen) as nat,
                ),
            decreases n - i,
        {
            let c = raw.sql.get_char(i);
            proof {
                assert(raw.sql@.skip(i as int)[0] == c);
                assert(raw.sql@.skip(i as int).skip(1) =~= raw.sql@.skip(i as int + 1));
            }
            if c == '?' {
                seen = seen + 1;
                self.write_placeholder(k + seen);
                proof {
                    assert(sql0 + raw_text(raw.sql@, k as nat) =~= self.sql@ + raw_text(
                        raw.sql@.skip(i as int + 1),
                        (k + seen) as nat,
                    ));
                }
            } else {
                self.write_char(c);
                proof {
                    assert(sql0 + raw_text(raw.sql@, k as nat) =~= self.sql@ + raw_text(
                        raw.sql@.skip(i as int + 1),
                        (k + seen) as nat,
                    ));
                }
            }
            i += 1;
        }
        proof {
            assert(raw.sql@.skip(n as int) =~= Seq::<char>::empty());
            assert(self.sql@ =~= sql0 + raw_text(raw.sql@, k as nat));
        }
    }

    /// Renders one argument, dispatching on its kind, and binds the values
    /// it carries.
    pub fn write_arg(&mut self, a: &Arg)
        requires
            arg_ok(a@),
        ensures
            final(self).sql@ == old(self).sql@ + arg_text(
                a@,
                old(self).quote,
                old(self).bindings.deep_view().len(),
            ),
            final(self).bindings.deep_view() == old(self).bindings.deep_view() + arg_vals(a@),
            final(self).quote == old(self).quote,
        decreases *a,
    {
        let ghost sql0 = self.sql@;
        let ghost b0 = self.bindings.deep_view();
        let ghost qg = self.quote;
        match a {
            Arg::Relation(rel) => {
                self.write_relation(rel.0.as_str());
                proof {
                    assert(self.bindings.deep_view() =~= b0 + arg_vals(a@));
                }
            },
            Arg::Value(ArgValue::Value(v)) => {
                match v {
                    Value::Null => {
                        self.write_str("null");
                        proof {
                            assert(self.bindings.deep_view() =~= b0 + arg_vals(a@));
                        }
                    },
                    _ => {
                        let vc = v.clone();
                        let idx = self.push_binding(vc);
                        self.write_placeholder(idx);
                        proof {
                            assert(self.bindings.deep_view() =~= b0 + arg_vals(a@));
                        }
                    },
                }
            },
            Arg::Value(ArgValue::Values(vs)) => {
                self.write_values(vs);
                proof {
                    assert(self.sql@ =~= sql0 + arg_text(a@, qg, b0.len()));
                }
            },
            Arg::Raw(r) => {
                self.write_raw(r);
            },
            Arg::SubQuery(sq) => {
                self.write_char('(');
                self.build_select(&*sq.0);
                self.write_char(')');
                match &sq.0.alias {
                    Some(al) => {
                        self.write_str(" as ");
                        self.write_relation(al.as_str());
                    },
                    None => {},
                }
                proof {
                    assert(self.sql@ =~= sql0 + arg_text(a@, qg, b0.len()));
                }
            },
            Arg::Keyword(kw) => {
                match kw {
                    SqlKeyword::Asc => self.write_str("asc"),
                    SqlKeyword::Desc => self.write_str("desc"),
                    SqlKeyword::NullsFirst => self.write_str("nulls first"),
                    SqlKeyword::NullsLast => self.write_str("nulls last"),
                }
                proof {
                    assert(self.bindings.deep_view() =~= b0 + arg_vals(a@));
                }
            },
        }
    }

    /// Renders a non-empty projection list, comma-separated, in order.
    pub fn write_columns(&mut self, cols: &Vec<Column>)
        requires
            columns_ok(columns_view(cols@)),
        ensures
            final(self).sql@ == old(self).sql@ + columns_text(
                columns_view(cols@),
                old(self).quote,
                old(self).bindings.deep_view().len(),
                true,
            ),
            final(self).bindings.deep_view() == old(self).bindings.deep_view() + columns_vals(
                columns_view(cols@),
            ),
            final(self).quote == old(self).quote,
        decreases *cols,
    {
        let ghost sql0 = self.sql@;
        let ghost b0 = self.bindings.deep_view();
        let ghost qg = self.quote;
        let ghost cv = columns_view(cols@);
        proof {
            lemma_columns_view_index(cols@);
            assert(cv.skip(0) =~= cv);
            assert(b0 + columns_vals(cv) =~= self.bindings.deep_view() + columns_vals(cv.skip(0)));
            assert(sql0 + columns_text(cv, qg, b0.len(), true) =~= self.sql@ + columns_text(
                cv.skip(0),
                qg,
                self.bindings.deep_view().len(),
                true,
            ));
        }
        let n = cols.len();
        let mut i: usize = 0;
        while i < n
            invariant
                0 <= i <= n,
                n == cols@.len(),
                cv == columns_view(cols@),
                cv.len() == n,
                forall|j: int| 0 <= j < n ==> cv[j] == column_view(cols@[j]),
                columns_ok(cv),
                self.quote == qg,
                sql0 + columns_text(cv, qg, b0.len(), true) =~= self.sql@ + columns_text(
                    cv.skip(i as int),
                    qg,
                    self.bindings.deep_view().len(),
                    i == 0,
                ),
                b0 + columns_vals(cv) =~= self.bindings.deep_view() + columns_vals(
                    cv.skip(i as int),
                ),
                columns_ok(cv.skip(i as int)),
            decreases n - i,
        {
            let ghost pre_b = self.bindings.deep_view();
            let ghost pre_sql = self.sql@;
            if i > 0 {
                self.write_char(',');
                self.write_char(' ');
            }
            let col = &cols[i];
            proof {
                assert(cv.skip(i as int)[0] == cv[i as int]);
                assert(col@ == cv[i as int]);
                assert(arg_ok(col.arg@));
            }
            self.write_arg(&col.arg);
            match &col.alias {
                Some(al) => {
                    self.write_str(" as ");
                    self.write_relation(al.as_str());
                },
                None => {},
            }
            proof {
                assert(cv.skip(i as int).skip(1) =~= cv.skip(i as int + 1));
                assert(self.bindings.deep_view() =~= pre_b + column_vals(cv[i as int]));
                assert(b0 + columns_vals(cv) =~= self.bindings.deep_view() + columns_vals(
                    cv.skip(i as int + 1),
                ));
                assert(self.sql@ =~= pre_sql + (if i == 0 {
                    Seq::<char>::empty()
                } else {
                    seq![',', ' ']
                }) + model::column_text(cv[i as int], qg, pre_b.len()));
                assert(columns_text(cv.skip(i as int), qg, pre_b.len(), i == 0) =~= (if i == 0 {
                    Seq::<char>::empty()
                } else {
                    seq![',', ' ']
                }) + model::column_text(cv[i as int], qg, pre_b.len()) + columns_text(
                    cv.skip(i as int + 1),
                    qg,
                    self.bindings.deep_view().len(),
                    false,
                ));
                assert(sql0 + columns_text(cv, qg, b0.len(), true) =~= self.sql@ + columns_text(
                    cv.skip(i as int + 1),
                    qg,
                    self.bindings.deep_view().len(),
                    false,
                ));
            }
            i += 1;
        }
        proof {
            assert(cv.skip(n as int).len() == 0);
            assert(self.sql@ =~= sql0 + columns_text(cv, qg, b0.len(), true));
            assert(self.bindings.deep_view() =~= b0 + columns_vals(cv));
        }
    }

    /// Renders a join list, one clause after another, in order.
    pub fn write_joins(&mut self, js: &Vec<Join>)
        requires
            joins_ok(joins_view(js@)),
        ensures
            final(self).sql@ == old(self).sql@ + joins_text(
                joins_view(js@),
                old(self).quote,
                old(self).bindings.deep_view().len(),
            ),
            final(self).bindings.deep_view() == old(self).bindings.deep_view() + joins_vals(
                joins_view(js@),
            ),
            final(self).quote == old(self).quote,
        decreases *js,
    {
        let ghost sql0 = self.sql@;
        let ghost b0 = self.bindings.deep_view();
        let ghost qg = self.quote;
        let ghost jv = joins_view(js@);
        proof {
            lemma_joins_view_index(js@);
            assert(jv.skip(0) =~= jv);
            assert(b0 + joins_vals(jv) =~= self.bindings.deep_view() + joins_vals(jv.skip(0)));
            assert(sql0 + joins_text(jv, qg, b0.len()) =~= self.sql@ + joins_text(
                jv.skip(0),
                qg,
                self.bindings.deep_view().len(),
            ));
        }
        let n = js.len();
        let mut i: usize = 0;
        while i < n
            invariant
                0 <= i <= n,
                n == js@.len(),
                jv == joins_view(js@),
                jv.len() == n,
                forall|j: int| 0 <= j < n ==> jv[j] == join_view(js@[j]),
                self.quote == qg,
                sql0 + joins_text(jv, qg, b0.len()) =~= self.sql@ + joins_text(
                    jv.skip(i as int),
                    qg,
                    self.bindings.deep_view().len(),
                ),
                b0 + joins_vals(jv) =~= self.bindings.deep_view() + joins_vals(jv.skip(i as int)),
                joins_ok(jv.skip(i as int)),
            decreases n - i,
        {
            let ghost pre_b = self.bindings.deep_view();
            let ghost pre_sql = self.sql@;
            let j = &js[i];
            proof {
                assert(jv.skip(i as int)[0] == jv[i as int]);
                assert(j@ == jv[i as int]);
            }
            match j {
                Join::Regular(rj) => {
                    match &rj.join_type {
                        Some(t) => {
                            self.write_char(' ');
                            self.write_str(t.as_str());
                        },
                        None => {},
                    }
                    self.write_str(" join ");
                    self.write_relation(rj.table.as_str());
                    self.write_str(" on ");
                    self.write_arg(&rj.left);
                    self.write_char(' ');
                    self.write_str(rj.op.as_str());
                    self.write_char(' ');
                    self.write_arg(&rj.right);
                },
            }
            proof {
                assert(jv.skip(i as int).skip(1) =~= jv.skip(i as int + 1));
                assert(self.bindings.deep_view() =~= pre_b + join_vals(jv[i as int]));
                assert(b0 + joins_vals(jv) =~= self.bindings.deep_view() + joins_vals(
                    jv.skip(i as int + 1),
                ));
                assert(self.sql@ =~= pre_sql + model::join_text(jv[i as int], qg, pre_b.len()));
                assert(joins_text(jv.skip(i as int), qg, pre_b.len()) =~= model::join_text(
                    jv[i as int],
                    qg,
                    pre_b.len(),
                ) + joins_text(jv.skip(i as int + 1), qg, self.bindings.deep_view().len()));
                assert(sql0 + joins_text(jv, qg, b0.len()) =~= self.sql@ + joins_text(
                    jv.skip(i as int + 1),
                    qg,
                    self.bindings.deep_view().len(),
                ));
            }
            i += 1;
        }
        proof {
            assert(jv.skip(n as int).len() == 0);
            assert(self.sql@ =~= sql0 + joins_text(jv, qg, b0.len()));
            assert(self.bindings.deep_view() =~= b0 + joins_vals(jv));
        }
    }

    /// Renders an `order by` list, comma-separated, in order.
    pub fn write_orderings(&mut self, os: &Vec<Ordering>)
        requires
            orderings_ok(orderings_view(os@)),
        ensures
            final(self).sql@ == old(self).sql@ + orderings_text(
                orderings_view(os@),
                old(self).quote,
                old(self).bindings.deep_view().len(),
                true,
            ),
            final(self).bindings.deep_view() == old(self).bindings.deep_view() + orderings_vals(
                orderings_view(os@),
            ),
            final(self).quote == old(self).quote,
        decreases *os,
    {
        let ghost sql0 = self.sql@;
        let ghost b0 = self.bindings.deep_view();
        let ghost qg = self.quote;
        let ghost ov = orderings_view(os@);
        proof {
            lemma_orderings_view_index(os@);
            assert(ov.skip(0) =~= ov);
            assert(b0 + orderings_vals(ov) =~= self.bindings.deep_view() + orderings_vals(
                ov.skip(0),
            ));
            assert(sql0 + orderings_text(ov, qg, b0.len(), true) =~= self.sql@ + orderings_text(
                ov.skip(0),
                qg,
                self.bindings.deep_view().len(),
                true,
            ));
        }
        let n = os.len();
        let mut i: usize = 0;
        while i < n
            invariant
                0 <= i <= n,
                n == os@.len(),
                ov == orderings_view(os@),
                ov.len() == n,
                forall|j: int| 0 <= j < n ==> ov[j] == ordering_view(os@[j]),
                self.quote == qg,
                sql0 + orderings_text(ov, qg, b0.len(), true) =~= self.sql@ + orderings_text(
                    ov.skip(i as int),
                    qg,
                    self.bindings.deep_view().len(),
                    i == 0,
                ),
                b0 + orderings_vals(ov) =~= self.bindings.deep_view() + orderings_vals(
                    ov.skip(i as int),
                ),
                orderings_ok(ov.skip(i as int)),
            decreases n - i,
        {
            let ghost pre_b = self.bindings.deep_view();
            let ghost pre_sql = self.sql@;
            if i > 0 {
                self.write_char(',');
                self.write_char(' ');
            }
            let o = &os[i];
            proof {
                assert(ov.skip(i as int)[0] == ov[i as int]);
                assert(o@ == ov[i as int]);
            }
            self.write_arg(&o.left);
            self.write_char(' ');
            self.write_arg(&o.right);
            match o.null_first {
                Some(true) => self.write_str(" nulls first"),
                Some(false) => self.write_str(" nulls last"),
                None => {},
            }
            proof {
                assert(ov.skip(i as int).skip(1) =~= ov.skip(i as int + 1));
                assert(self.bindings.deep_view() =~= pre_b + ordering_vals(ov[i as int]));
                assert(b0 + orderings_vals(ov) =~= self.bindings.deep_view() + orderings_vals(
                    ov.skip(i as int + 1),
                ));
                assert(self.sql@ =~= pre_sql + (if i == 0 {
                    Seq::<char>::empty()
                } else {
                    seq![',', ' ']
                }) + model::ordering_text(ov[i as int], qg, pre_b.len()));
                assert(orderings_text(ov.skip(i as int), qg, pre_b.len(), i == 0) =~= (if i == 0 {
                    Seq::<char>::empty()
                } else {
                    seq![',', ' ']
                }) + model::ordering_text(ov[i as int], qg, pre_b.len()) + orderings_text(
                    ov.skip(i as int + 1),
                    qg,
                    self.bindings.deep_view().len(),
                    false,
                ));
                assert(sql0 + orderings_text(ov, qg, b0.len(), true) =~= self.sql@
                    + orderings_text(
                    ov.skip(i as int + 1),
                    qg,
                    self.bindings.deep_view().len(),
                    false,
                ));
            }
            i += 1;
        }
        proof {
            assert(ov.skip(n as int).len() == 0);
            assert(self.sql@ =~= sql0 + orderings_text(ov, qg, b0.len(), true));
            assert(self.bindings.deep_view() =~= b0 + orderings_vals(ov));
        }
    }

    /// Renders a condition list: each condition after the first is preceded
    /// by its connective; a group's children are wrapped in one parenthesis
    /// pair unless the group has exactly one child.
    #[verifier::rlimit(100)]
    pub fn write_conds(&mut self, cs: &Vec<WhereCondition>)
        requires
            conds_ok(conds_view(cs@)),
        ensures
            final(self).sql@ == old(self).sql@ + conds_text(
                conds_view(cs@),
                old(self).quote,
                old(self).bindings.deep_view().len(),
                true,
            ),
            final(self).bindings.deep_view() == old(self).bindings.deep_view() + conds_vals(
                conds_view(cs@),
            ),
            final(self).quote == old(self).quote,
        decreases *cs,
    {
        let ghost sql0 = self.sql@;
        let ghost b0 = self.bindings.deep_view();
        let ghost qg = self.quote;
        let ghost cv = conds_view(cs@);
        proof {
            lemma_conds_view_index(cs@);
            assert(cv.skip(0) =~= cv);
            assert(b0 + conds_vals(cv) =~= self.bindings.deep_view() + conds_vals(cv.skip(0)));
            assert(sql0 + conds_text(cv, qg, b0.len(), true) =~= self.sql@ + conds_text(
                cv.skip(0),
                qg,
                self.bindings.deep_view().len(),
                true,
            ));
        }
        let n = cs.len();
        let mut i: usize = 0;
        while i < n
            invariant
                0 <= i <= n,
                n == cs@.len(),
                cv == conds_view(cs@),
                cv.len() == n,
                forall|j: int| 0 <= j < n ==> cv[j] == cond_view(cs@[j]),
                self.quote == qg,
                sql0 + conds_text(cv, qg, b0.len(), true) =~= self.sql@ + conds_text(
                    cv.skip(i as int),
                    qg,
                    self.bindings.deep_view().len(),
                    i == 0,
                ),
                b0 + conds_vals(cv) =~= self.bindings.deep_view() + conds_vals(cv.skip(i as int)),
                conds_ok(cv.skip(i as int)),
            decreases n - i,
        {
            let ghost pre_b = self.bindings.deep_view();
            let cond = &cs[i];
            proof {
                assert(cv.skip(i as int)[0] == cv[i as int]);
                assert(cond@ == cv[i as int]);
                assert(cond_ok(cv[i as int]));
            }
            match cond {
                WhereCondition::Group(g) => {
                    if i > 0 {
                        match g.op {
                            ConditionOp::And => self.write_str(" and"),
                            ConditionOp::Or => self.write_str(" or"),
                        }
                    }
                    let ghost pre_body = self.sql@;
                    if g.conditions.len() == 1 {
                        self.write_conds(&g.conditions);
                    } else {
                        self.write_char('(');
                        self.write_conds(&g.conditions);
                        self.write_char(')');
                    }
                    proof {
                        lemma_conds_view_index(g.conditions@);
                        assert(self.sql@ =~= pre_body + cond_text(cv[i as int], qg, pre_b.len()));
                    }
                },
                WhereCondition::Single(sc) => {
                    if i > 0 {
                        match sc.op {
                            ConditionOp::And => self.write_str(" and"),
                            ConditionOp::Or => self.write_str(" or"),
                        }
                        self.write_char(' ');
                    }
                    let ghost pre_body = self.sql@;
                    self.write_arg(&sc.left);
                    self.write_char(' ');
                    self.write_str(sc.middle.as_str());
                    self.write_char(' ');
                    self.write_arg(&sc.right);
                    proof {
                        assert(self.sql@ =~= pre_body + cond_text(cv[i as int], qg, pre_b.len()));
                    }
                },
            }
            proof {
                assert(cv.skip(i as int).skip(1) =~= cv.skip(i as int + 1));
                assert(self.bindings.deep_view() =~= pre_b + cond_vals(cv[i as int]));
                assert(b0 + conds_vals(cv) =~= self.bindings.deep_view() + conds_vals(
                    cv.skip(i as int + 1),
                ));
                assert(sql0 + conds_text(cv, qg, b0.len(), true) =~= self.sql@ + conds_text(
                    cv.skip(i as int + 1),
                    qg,
                    self.bindings.deep_view().len(),
                    false,
                ));
            }
            i += 1;
        }
        proof {
            assert(cv.skip(n as int).len() == 0);
            assert(self.sql@ =~= sql0 + conds_text(cv, qg, b0.len(), true));
            assert(self.bindings.deep_view() =~= b0 + conds_vals(cv));
        }
    }

    /// Renders a whole select statement into this writer, continuing its
    /// placeholder numbering.
    /// Renders the first half of a select statement: the keyword, the
    /// projection, the source and the joins.
    #[verifier::rlimit(100)]
    #[verifier::spinoff_prover]
    fn build_select_front(&mut self, s: &SelectQuery)
        requires
            select_ok(s@),
        ensures
            final(self).sql@ == old(self).sql@ + model::select_front_text(
                s@,
                old(self).quote,
                old(self).bindings.deep_view().len(),
            ),
            final(self).bindings.deep_view() == old(self).bindings.deep_view()
                + model::select_front_vals(s@),
            final(self).quote == old(self).quote,
        decreases *s, 0int,
    {
        let ghost sql0 = self.sql@;
        let ghost b0 = self.bindings.deep_view();
        let ghost qg = self.quote;
        let ghost k0 = b0.len();
        let ghost t_kw = "select"@;
        let ghost t_proj = projection_text(s@.columns, qg, k0);
        self.write_str("select");
        match &s.columns {
            Some(cols) => {
                if cols.len() == 0 {
                    self.write_char(' ');
                    self.write_char('*');
                    proof {
                        assert((sql0 + t_kw).push(' ').push('*') =~= (sql0 + t_kw) + seq![
                            ' ',
                            '*',
                        ]);
                        assert(self.sql@ == (sql0 + t_kw) + t_proj);
                    }
                } else {
                    self.write_char(' ');
                    self.write_columns(cols);
                    proof {
                        assert((sql0 + t_kw).push(' ') =~= (sql0 + t_kw) + seq![' ']);
                        model::lemma_add_assoc(sql0 + t_kw, seq![' '], columns_text(
                            columns_view(cols@),
                            qg,
                            k0,
                            true,
                        ));
                        assert(t_proj == seq![' '] + columns_text(
                            columns_view(cols@),
                            qg,
                            k0,
                            true,
                        ));
                        assert(self.sql@ == (sql0 + t_kw) + t_proj);
                    }
                }
            },
            None => {
                self.write_char(' ');
                self.write_char('*');
                proof {
                    assert((sql0 + t_kw).push(' ').push('*') =~= (sql0 + t_kw) + seq![' ', '*']);
                    assert(self.sql@ == (sql0 + t_kw) + t_proj);
                }
            },
        }
        proof {
            assert(self.sql@ == (sql0 + t_kw) + t_proj);
            assert(self.bindings.deep_view() =~= b0 + projection_vals(s@.columns));
        }
        let ghost sql_proj = self.sql@;
        let ghost b_proj = self.bindings.deep_view();
        let ghost t_table = (match s@.table {
            Some(t) => " from "@ + arg_text(t, qg, b_proj.len()),
            None => Seq::<char>::empty(),
        });
        match &s.table {
            Some(t) => {
                self.write_str(" from ");
                self.write_arg(&**t);
                proof {
                    model::lemma_add_assoc(sql_proj, " from "@, arg_text(
                        s@.table->0,
                        qg,
                        b_proj.len(),
                    ));
                    assert(self.sql@ == sql_proj + t_table);
                }
            },
            None => {
                proof {
                    assert(sql_proj + t_table =~= sql_proj);
                }
            },
        }
        proof {
            assert(self.sql@ == sql_proj + t_table);
            assert(self.bindings.deep_view() =~= b_proj + (match s@.table {
                Some(t) => arg_vals(t),
                None => Seq::<ValueView>::empty(),
            }));
        }
        let ghost sql_table = self.sql@;
        let ghost b_table = self.bindings.deep_view();
        let ghost t_joins = (match s@.joins {
            Some(js) => joins_text(js, qg, b_table.len()),
            None => Seq::<char>::empty(),
        });
        match &s.joins {
            Some(js) => {
                self.write_joins(js);
                proof {
                    assert(self.sql@ == sql_table + t_joins);
                }
            },
            None => {
                proof {
                    assert(sql_table + t_joins =~= sql_table);
                }
            },
        }
        proof {
            assert(self.sql@ == sql_table + t_joins);
            assert(self.bindings.deep_view() =~= b_table + (match s@.joins {
                Some(js) => joins_vals(js),
                None => Seq::<ValueView>::empty(),
            }));
            assert(b_proj.len() == k0 + projection_vals(s@.columns).len());
            assert(b_table.len() == b_proj.len() + (match s@.table {
                Some(t) => arg_vals(t),
                None => Seq::<ValueView>::empty(),
            }).len());
            assert(model::select_front_text(s@, qg, k0) == (t_kw + t_proj) + t_table + t_joins);
            model::lemma_add_assoc(sql0, t_kw, t_proj);
            model::lemma_add_assoc(sql0, t_kw + t_proj, t_table);
            model::lemma_add_assoc(sql0, (t_kw + t_proj) + t_table, t_joins);
            assert(self.sql@ == sql0 + model::select_front_text(s@, qg, k0));
            model::lemma_add_assoc(
                b0,
                projection_vals(s@.columns),
                (match s@.table {
                    Some(t) => arg_vals(t),
                    None => Seq::<ValueView>::empty(),
                }),
            );
            model::lemma_add_assoc(
                b0,
                projection_vals(s@.columns) + (match s@.table {
                    Some(t) => arg_vals(t),
                    None => Seq::<ValueView>::empty(),
                }),
                (match s@.joins {
                    Some(js) => joins_vals(js),
                    None => Seq::<ValueView>::empty(),
                }),
            );
            assert(self.bindings.deep_view() == b0 + model::select_front_vals(s@));
        }
    }

    /// Renders a whole select statement into this writer, continuing its
    /// placeholder numbering.
    #[verifier::rlimit(100)]
    #[verifier::spinoff_prover]
    pub fn build_select(&mut self, s: &SelectQuery)
        requires
            select_ok(s@),
        ensures
            final(self).sql@ == old(self).sql@ + select_text(
                s@,
                old(self).quote,
                old(self).bindings.deep_view().len(),
            ),
            final(self).bindings.deep_view() == old(self).bindings.deep_view() + select_vals(s@),
            final(self).quote == old(self).quote,
        decreases *s, 1int,
    {
        let ghost sql0 = self.sql@;
        let ghost b0 = self.bindings.deep_view();
        let ghost qg = self.quote;
        let ghost k0 = b0.len();
        self.build_select_front(s);
        let ghost sql_front = self.sql@;
        let ghost b_front = self.bindings.deep_view();
        let ghost t_where = where_text(s@.where_, qg, b_front.len());
        if s.where_.len() > 0 {
            self.write_str(" where ");
            self.write_conds(&s.where_);
            proof {
                lemma_conds_view_index(s.where_@);
                model::lemma_add_assoc(sql_front, " where "@, conds_text(
                    s@.where_,
                    qg,
                    b_front.len(),
                    true,
                ));
                assert(self.sql@ == sql_front + t_where);
            }
        } else {
            proof {
                lemma_conds_view_index(s.where_@);
                assert(s@.where_.len() == 0);
                assert(sql_front + t_where =~= sql_front);
            }
        }
        proof {
            lemma_conds_view_index(s.where_@);
            assert(self.sql@ == sql_front + t_where);
            assert(self.bindings.deep_view() =~= b_front + conds_vals(s@.where_));
        }
        let ghost sql_where = self.sql@;
        let ghost b_where = self.bindings.deep_view();
        let ghost t_order = (match s@.ordering {
            Some(os) => " order by "@ + orderings_text(os, qg, b_where.len(), true),
            None => Seq::<char>::empty(),
        });
        match &s.ordering {
            Some(os) => {
                self.write_str(" order by ");
                self.write_orderings(os);
                proof {
                    model::lemma_add_assoc(sql_where, " order by "@, orderings_text(
                        orderings_view(os@),
                        qg,
                        b_where.len(),
                        true,
                    ));
                    assert(self.sql@ == sql_where + t_order);
                }
            },
            None => {
                proof {
                    assert(sql_where + t_order =~= sql_where);
                }
            },
        }
        proof {
            assert(self.sql@ == sql_where + t_order);
        }
        let ghost sql_order = self.sql@;
        let ghost t_limit = (match s@.limit {
            Some(l) => " limit "@ + dec_digits(l as nat),
            None => Seq::<char>::empty(),
        });
        match &s.limit {
            Some(l) => {
                self.write_str(" limit ");
                self.write_usize(*l);
                proof {
                    model::lemma_add_assoc(sql_order, " limit "@, dec_digits(s@.limit->0 as nat));
                    assert(self.sql@ == sql_order + t_limit);
                }
            },
            None => {
                proof {
                    assert(sql_order + t_limit =~= sql_order);
                }
            },
        }
        proof {
            assert(self.sql@ == sql_order + t_limit);
        }
        let ghost sql_limit = self.sql@;
        let ghost t_offset = (match s@.offset {
            Some(o) => " offset "@ + dec_digits(o as nat),
            None => Seq::<char>::empty(),
        });
        match &s.offset {
            Some(o) => {
                self.write_str(" offset ");
                self.write_usize(*o);
                proof {
                    model::lemma_add_assoc(sql_limit, " offset "@, dec_digits(
                        s@.offset->0 as nat,
                    ));
                    assert(self.sql@ == sql_limit + t_offset);
                }
            },
            None => {
                proof {
                    assert(sql_limit + t_offset =~= sql_limit);
                }
            },
        }
        proof {
            assert(self.sql@ == sql_limit + t_offset);
            assert(b_front.len() == k0 + model::select_front_vals(s@).len());
            assert(b_where.len() == b_front.len() + conds_vals(s@.where_).len());
            let back = model::select_back_text(s@, qg, b_front.len());
            assert(back == ((t_where + t_order) + t_limit) + t_offset);
            model::lemma_add_assoc(sql_front, t_where, t_order);
            model::lemma_add_assoc(sql_front, t_where + t_order, t_limit);
            model::lemma_add_assoc(sql_front, (t_where + t_order) + t_limit, t_offset);
            assert(self.sql@ == sql_front + back);
            model::lemma_select_split(s@, qg, k0);
            model::lemma_add_assoc(sql0, model::select_front_text(s@, qg, k0), back);
            assert(self.sql@ == sql0 + select_text(s@, qg, k0));
            let bv = model::select_back_vals(s@);
            assert(self.bindings.deep_view() =~= b_front + bv);
            model::lemma_add_assoc(b0, model::select_front_vals(s@), bv);
            assert(self.bindings.deep_view() == b0 + select_vals(s@));
        }
    }
}


impl SqlWriter {
    /// Renders a whole delete statement. Its placeholders are numbered from
    /// 1, so the writer must not have bound values yet.
    #[verifier::rlimit(50)]
    pub fn build_delete(&mut self, d: &crate::query_builder::query::delete::DeleteQuery)
        requires
            model::delete_ok(d@),
            old(self).bindings.deep_view().len() == 0,
        ensures
            final(self).sql@ == old(self).sql@ + model::delete_text(d@, old(self).quote),
            final(self).bindings.deep_view() == model::delete_vals(d@),
            final(self).quote == old(self).quote,
    {
        let ghost sql0 = self.sql@;
        let ghost b0 = self.bindings.deep_view();
        let ghost qg = self.quote;
        let ghost t_kw = "delete"@;
        let ghost t_table = (match d@.table {
            Some(t) => " from "@ + relation_text(t, qg),
            None => Seq::<char>::empty(),
        });
        self.write_str("delete");
        match &d.table {
            Some(t) => {
                self.write_str(" from ");
                self.write_relation(t.as_str());
                proof {
                    model::lemma_add_assoc(sql0 + t_kw, " from "@, relation_text(
                        d@.table->0,
                        qg,
                    ));
                    assert(self.sql@ == (sql0 + t_kw) + t_table);
                }
            },
            None => {
                proof {
                    assert((sql0 + t_kw) + t_table =~= sql0 + t_kw);
                }
            },
        }
        proof {
            assert(self.sql@ == (sql0 + t_kw) + t_table);
        }
        let ghost sql_table = self.sql@;
        let ghost t_where = where_text(d@.where_clause, qg, 0);
        if d.where_clause.len() > 0 {
            self.write_str(" where ");
            self.write_conds(&d.where_clause);
            proof {
                lemma_conds_view_index(d.where_clause@);
                model::lemma_add_assoc(sql_table, " where "@, conds_text(
                    d@.where_clause,
                    qg,
                    0,
                    true,
                ));
                assert(self.sql@ == sql_table + t_where);
            }
        } else {
            proof {
                lemma_conds_view_index(d.where_clause@);
                assert(sql_table + t_where =~= sql_table);
            }
        }
        proof {
            lemma_conds_view_index(d.where_clause@);
            assert(self.sql@ == sql_table + t_where);
            model::lemma_add_assoc(sql0, t_kw, t_table);
            model::lemma_add_assoc(sql0, t_kw + t_table, t_where);
            assert(self.sql@ == sql0 + model::delete_text(d@, qg));
            assert(self.bindings.deep_view() =~= model::delete_vals(d@));
        }
    }

    /// Renders a whole update statement. The row values are bound before the
    /// `set` clause is written, so its pairs are numbered from 1 and the
    /// condition tree's placeholders continue after them; the writer must
    /// not have bound values yet.
    #[verifier::rlimit(100)]
    #[verifier::spinoff_prover]
    pub fn build_update(&mut self, u: &crate::query_builder::query::update::UpdateQuery)
        requires
            model::update_ok(u@),
            old(self).bindings.deep_view().len() == 0,
        ensures
            final(self).sql@ == old(self).sql@ + model::update_text(u@, old(self).quote),
            final(self).bindings.deep_view() == model::update_vals(u@),
            final(self).quote == old(self).quote,
    {
        let ghost sql0 = self.sql@;
        let ghost qg = self.quote;
        let nvals = u.values.len();
        let mut j: usize = 0;
        while j < nvals
            invariant
                0 <= j <= nvals,
                nvals == u.values@.len(),
                self.quote == qg,
                self.sql@ == sql0,
                self.bindings.deep_view() =~= u.values.deep_view().take(j as int),
            decreases nvals - j,
        {
            let v = u.values[j].clone();
            self.push_binding(v);
            proof {
                assert(self.bindings.deep_view() =~= u.values.deep_view().take(j as int + 1));
            }
            j += 1;
        }
        proof {
            assert(u.values.deep_view().take(nvals as int) =~= u.values.deep_view());
        }
        let ghost b_vals = self.bindings.deep_view();
        let ghost t_kw = "update"@;
        let ghost t_table = (match u@.table {
            Some(t) => seq![' '] + relation_text(t, qg),
            None => Seq::<char>::empty(),
        });
        self.write_str("update");
        match &u.table {
            Some(t) => {
                self.write_char(' ');
                self.write_relation(t.as_str());
                proof {
                    assert((sql0 + t_kw).push(' ') =~= (sql0 + t_kw) + seq![' ']);
                    model::lemma_add_assoc(sql0 + t_kw, seq![' '], relation_text(u@.table->0, qg));
                    assert(self.sql@ == (sql0 + t_kw) + t_table);
                }
            },
            None => {
                proof {
                    assert((sql0 + t_kw) + t_table =~= sql0 + t_kw);
                }
            },
        }
        self.write_str(" set");
        proof {
            model::lemma_add_assoc(sql0 + t_kw, t_table, " set"@);
        }
        let ghost sql_set = self.sql@;
        let ghost cols = u@.columns;
        let n = u.columns.len();
        let mut i: usize = 0;
        proof {
            assert(cols.take(0).len() == 0);
            assert(sql_set + model::set_pairs_text(cols.take(0), qg) =~= sql_set);
        }
        while i < n
            invariant
                0 <= i <= n,
                n == u.columns@.len(),
                cols == u@.columns,
                cols.len() == n,
                self.quote == qg,
                self.bindings.deep_view() == b_vals,
                self.sql@ == sql_set + model::set_pairs_text(cols.take(i as int), qg),
            decreases n - i,
        {
            let ghost pre_sql = self.sql@;
            if i > 0 {
                self.write_char(',');
            }
            self.write_char(' ');
            self.write_relation(u.columns[i].as_str());
            self.write_str(" = ");
            self.write_placeholder(i + 1);
            proof {
                assert(u.columns[i as int]@ == cols[i as int]);
                assert(self.sql@ =~= pre_sql + (if i > 0 {
                    seq![',']
                } else {
                    Seq::<char>::empty()
                }) + seq![' '] + relation_text(cols[i as int], qg) + " = "@ + placeholder(
                    (i + 1) as nat,
                ));
                assert(cols.take(i as int + 1).drop_last() =~= cols.take(i as int));
                assert(cols.take(i as int + 1).last() == cols[i as int]);
                assert(cols.take(i as int + 1).len() == i + 1);
                assert(model::set_pairs_text(cols.take(i as int + 1), qg)
                    == model::set_pairs_text(cols.take(i as int), qg) + (if i + 1 > 1 {
                    seq![',']
                } else {
                    Seq::<char>::empty()
                }) + seq![' '] + relation_text(cols[i as int], qg) + " = "@ + placeholder(
                    (i + 1) as nat,
                ));
                assert(self.sql@ =~= sql_set + model::set_pairs_text(cols.take(i as int + 1), qg));
            }
            i += 1;
        }
        proof {
            assert(cols.take(n as int) =~= cols);
        }
        let ghost sql_pairs = self.sql@;
        let ghost t_where = where_text(u@.where_clause, qg, u@.values.len());
        if u.where_clause.len() > 0 {
            self.write_str(" where ");
            self.write_conds(&u.where_clause);
            proof {
                lemma_conds_view_index(u.where_clause@);
                model::lemma_add_assoc(sql_pairs, " where "@, conds_text(
                    u@.where_clause,
                    qg,
                    u@.values.len(),
                    true,
                ));
                assert(self.sql@ == sql_pairs + t_where);
            }
        } else {
            proof {
                lemma_conds_view_index(u.where_clause@);
                assert(sql_pairs + t_where =~= sql_pairs);
            }
        }
        proof {
            lemma_conds_view_index(u.where_clause@);
            assert(self.sql@ == sql_pairs + t_where);
            let t_set = " set"@ + model::set_pairs_text(cols, qg);
            model::lemma_add_assoc(sql0 + t_kw, t_table, " set"@);
            assert(sql_set == ((sql0 + t_kw) + t_table) + " set"@);
            model::lemma_add_assoc((sql0 + t_kw) + t_table, " set"@, model::set_pairs_text(
                cols,
                qg,
            ));
            assert(sql_pairs == ((sql0 + t_kw) + t_table) + t_set);
            model::lemma_add_assoc((sql0 + t_kw) + t_table, t_set, t_where);
            assert(model::update_text(u@, qg) == ((t_kw + t_table) + " set"@
                + model::set_pairs_text(cols, qg)) + t_where);
            model::lemma_add_assoc(t_kw + t_table, " set"@, model::set_pairs_text(cols, qg));
            model::lemma_add_assoc(sql0, t_kw, t_table);
            model::lemma_add_assoc(sql0, t_kw + t_table, t_set);
            model::lemma_add_assoc(sql0, (t_kw + t_table) + t_set, t_where);
            assert(self.sql@ == sql0 + model::update_text(u@, qg));
            assert(self.bindings.deep_view() =~= model::update_vals(u@));
        }
    }
}


impl SqlWriter {
    /// Renders a whole insert statement. Its placeholders are numbered from
    /// 1, so the writer must not have bound values yet. Declared column
    /// names are plain identifiers and are always double-quoted.
    #[verifier::rlimit(100)]
    #[verifier::spinoff_prover]
    pub fn build_insert(&mut self, ins: &crate::query_builder::query::insert::InsertQuery)
        requires
            model::insert_ok(ins@),
            old(self).bindings.deep_view().len() == 0,
        ensures
            final(self).sql@ == old(self).sql@ + model::insert_text(ins@, old(self).quote),
            final(self).bindings.deep_view() == model::insert_vals(ins@),
            final(self).quote == old(self).quote,
    {
        let ghost sql0 = self.sql@;
        let ghost qg = self.quote;
        let ghost t_kw = "insert"@;
        let ghost t_table = (match ins@.table {
            Some(t) => " into "@ + relation_text(t, qg),
            None => Seq::<char>::empty(),
        });
        self.write_str("insert");
        match &ins.table {
            Some(t) => {
                self.write_str(" into ");
                self.write_relation(t.as_str());
                proof {
                    model::lemma_add_assoc(sql0 + t_kw, " into "@, relation_text(
                        ins@.table->0,
                        qg,
                    ));
                    assert(self.sql@ == (sql0 + t_kw) + t_table);
                }
            },
            None => {
                proof {
                    assert((sql0 + t_kw) + t_table =~= sql0 + t_kw);
                }
            },
        }
        proof {
            assert(self.sql@ == (sql0 + t_kw) + t_table);
        }
        let ghost sql_table = self.sql@;
        let ghost t_cols = (match ins@.ordered_columns {
            Some(cols) => seq![' ', '('] + model::insert_columns_text(cols) + seq![')'],
            None => Seq::<char>::empty(),
        });
        match &ins.ordered_columns {
            Some(cols) => {
                self.write_char(' ');
                self.write_char('(');
                let ghost colsv = ins@.ordered_columns->0;
                let ghost sql_open = self.sql@;
                proof {
                    assert(sql_open =~= sql_table + seq![' ', '(']);
                    assert(colsv.take(0).len() == 0);
                    assert(sql_open + model::insert_columns_text(colsv.take(0)) =~= sql_open);
                }
                let n = cols.len();
                let mut i: usize = 0;
                while i < n
                    invariant
                        0 <= i <= n,
                        n == cols@.len(),
                        colsv == cols.deep_view(),
                        colsv.len() == n,
                        self.quote == qg,
                        self.bindings.deep_view().len() == 0,
                        self.sql@ == sql_open + model::insert_columns_text(colsv.take(i as int)),
                    decreases n - i,
                {
                    let ghost pre_sql = self.sql@;
                    if i > 0 {
                        self.write_char(',');
                        self.write_char(' ');
                    }
                    self.write_char('"');
                    self.write_str(cols[i].as_str());
                    self.write_char('"');
                    proof {
                        assert(cols[i as int]@ == colsv[i as int]);
                        assert(self.sql@ =~= pre_sql + (if i > 0 {
                            seq![',', ' ']
                        } else {
                            Seq::<char>::empty()
                        }) + seq!['"'] + colsv[i as int] + seq!['"']);
                        assert(colsv.take(i as int + 1).drop_last() =~= colsv.take(i as int));
                        assert(colsv.take(i as int + 1).last() == colsv[i as int]);
                        assert(colsv.take(i as int + 1).len() == i + 1);
                        assert(self.sql@ =~= sql_open + model::insert_columns_text(
                            colsv.take(i as int + 1),
                        ));
                    }
                    i += 1;
                }
                self.write_char(')');
                proof {
                    assert(colsv.take(n as int) =~= colsv);
                    assert(self.sql@ =~= sql_table + (seq![' ', '(']
                        + model::insert_columns_text(colsv) + seq![')']));
                    assert(self.sql@ == sql_table + t_cols);
                }
            },
            None => {
                proof {
                    assert(sql_table + t_cols =~= sql_table);
                }
            },
        }
        proof {
            assert(self.sql@ == sql_table + t_cols);
        }
        let ghost sql_cols = self.sql@;
        match &ins.inner {
            crate::query_builder::query::insert::InsertType::WithValues(w) => {
                let ghost vals = ins@.inner->WithValues_0;
                let ghost t_values = (if vals.len() > 0 {
                    " values "@ + model::insert_tuples_text(
                        vals.len() / (match ins@.ordered_columns {
                            Some(cols) => cols.len(),
                            None => 1,
                        }),
                        match ins@.ordered_columns {
                            Some(cols) => cols.len(),
                            None => 1,
                        },
                    )
                } else {
                    Seq::<char>::empty()
                });
                if w.bindings.len() > 0 {
                    self.write_str(" values ");
                    let ncols = match &ins.ordered_columns {
                        Some(cols) => cols.len(),
                        None => {
                            proof {
                                assert(false);
                            }
                            unreached()
                        },
                    };
                    let total = w.bindings.len();
                    proof {
                        assert(ncols > 0);
                        assert(total as int % ncols as int == 0);
                    }
                    let nrows = total / ncols;
                    proof {
                        vstd::arithmetic::div_mod::lemma_fundamental_div_mod(
                            total as int,
                            ncols as int,
                        );
                        assert(nrows as int * ncols as int == ncols as int * nrows as int)
                            by (nonlinear_arith);
                        assert(nrows * ncols == total);
                    }
                    let ghost sql_values = self.sql@;
                    let mut r: usize = 0;
                    proof {
                        assert(sql_values + model::insert_tuples_text(0, ncols as nat)
                            =~= sql_values);
                    }
                    while r < nrows
                        invariant
                            0 <= r <= nrows,
                            ncols > 0,
                            nrows * ncols == total,
                            total == w.bindings@.len(),
                            total <= usize::MAX,
                            self.quote == qg,
                            self.bindings.deep_view().len() == 0,
                            self.sql@ == sql_values + model::insert_tuples_text(
                                r as nat,
                                ncols as nat,
                            ),
                        decreases nrows - r,
                    {
                        let ghost pre_sql = self.sql@;
                        if r > 0 {
                            self.write_char(',');
                            self.write_char(' ');
                        }
                        self.write_char('(');
                        proof {
                            assert((r + 1) * ncols <= nrows * ncols) by (nonlinear_arith)
                                requires
                                    r + 1 <= nrows,
                                    ncols >= 0,
                            ;
                            assert((r + 1) * ncols == r * ncols + ncols) by (nonlinear_arith);
                            assert(r * ncols + ncols <= total);
                        }
                        let row_base = r * ncols;
                        let ghost tuple_open = self.sql@;
                        let mut c: usize = 0;
                        proof {
                            assert(tuple_open + values_text(0, row_base as nat) =~= tuple_open);
                        }
                        while c < ncols
                            invariant
                                0 <= c <= ncols,
                                row_base == r * ncols,
                                row_base + ncols <= total,
                                total <= usize::MAX,
                                self.quote == qg,
                                self.bindings.deep_view().len() == 0,
                                self.sql@ == tuple_open + values_text(
                                    c as nat,
                                    row_base as nat,
                                ),
                            decreases ncols - c,
                        {
                            if c > 0 {
                                self.write_char(',');
                                self.write_char(' ');
                            }
                            self.write_placeholder(row_base + c + 1);
                            proof {
                                if c == 0 {
                                    assert(self.sql@ =~= tuple_open + values_text(
                                        (c + 1) as nat,
                                        row_base as nat,
                                    ));
                                } else {
                                    assert(values_text((c + 1) as nat, row_base as nat)
                                        =~= values_text(c as nat, row_base as nat) + seq![
                                        ',',
                                        ' ',
                                    ] + placeholder((row_base + c + 1) as nat));
                                    assert(self.sql@ =~= tuple_open + values_text(
                                        (c + 1) as nat,
                                        row_base as nat,
                                    ));
                                }
                            }
                            c += 1;
                        }
                        self.write_char(')');
                        proof {
                            assert(self.sql@ =~= pre_sql + (if r > 0 {
                                seq![',', ' ']
                            } else {
                                Seq::<char>::empty()
                            }) + seq!['('] + values_text(ncols as nat, (r * ncols) as nat)
                                + seq![')']);
                            assert(((r + 1) as nat - 1) * (ncols as nat) == (r * ncols) as nat)
                                by (nonlinear_arith);
                            assert(self.sql@ =~= sql_values + model::insert_tuples_text(
                                (r + 1) as nat,
                                ncols as nat,
                            ));
                        }
                        r += 1;
                    }
                    proof {
                        assert(vals.len() == total);
                        assert(vals.len() / (match ins@.ordered_columns {
                            Some(cols) => cols.len(),
                            None => 1nat,
                        }) == nrows as nat);
                        assert(self.sql@ == sql_cols + t_values);
                    }
                } else {
                    proof {
                        assert(sql_cols + t_values =~= sql_cols);
                    }
                }
                proof {
                    assert(self.sql@ == sql_cols + t_values);
                    model::lemma_add_assoc(sql0, t_kw, t_table);
                    model::lemma_add_assoc(sql0, t_kw + t_table, t_cols);
                    model::lemma_add_assoc(sql0, (t_kw + t_table) + t_cols, t_values);
                    assert(self.sql@ == sql0 + model::insert_text(ins@, qg));
                }
                let m = w.bindings.len();
                let mut j: usize = 0;
                let ghost sql_done = self.sql@;
                while j < m
                    invariant
                        0 <= j <= m,
                        m == w.bindings@.len(),
                        self.quote == qg,
                        self.sql@ == sql_done,
                        self.bindings.deep_view() =~= w.bindings.deep_view().take(j as int),
                    decreases m - j,
                {
                    let v = w.bindings[j].clone();
                    self.push_binding(v);
                    proof {
                        assert(self.bindings.deep_view() =~= w.bindings.deep_view().take(
                            j as int + 1,
                        ));
                    }
                    j += 1;
                }
                proof {
                    assert(w.bindings.deep_view().take(m as int) =~= w.bindings.deep_view());
                    assert(self.bindings.deep_view() =~= model::insert_vals(ins@));
                }
            },
            crate::query_builder::query::insert::InsertType::FromSubQuery(_) => {
                proof {
                    assert(false);
                }
            },
        }
    }
}


/// Counts the `?` markers of a raw fragment's text.
pub fn count_markers(s: &str) -> (n: usize)
    ensures
        n == marker_count(s@),
{
    let len = s.unicode_len();
    let mut i: usize = 0;
    let mut cnt: usize = 0;
    proof {
        assert(s@.skip(0) =~= s@);
    }
    while i < len
        invariant
            0 <= i <= len,
            len == s@.len(),
            cnt <= i,
            cnt + marker_count(s@.skip(i as int)) == marker_count(s@),
        decreases len - i,
    {
        let c = s.get_char(i);
        proof {
            assert(s@.skip(i as int)[0] == c);
            assert(s@.skip(i as int).skip(1) =~= s@.skip(i as int + 1));
        }
        if c == '?' {
            cnt += 1;
        }
        i += 1;
    }
    proof {
        assert(s@.skip(len as int) =~= Seq::<char>::empty());
    }
    cnt
}

/// Checks that an argument is renderable: every raw fragment reachable from
/// it has as many `?` markers as supplied values.
pub fn check_arg(a: &Arg) -> (ok: bool)
    ensures
        ok == arg_ok(a@),
    decreases *a,
{
    match a {
        Arg::Relation(_) => true,
        Arg::Value(_) => true,
        Arg::Raw(r) => {
            let markers = count_markers(r.sql.as_str());
            let supplied = match &r.bindings {
                Some(bs) => bs.len(),
                None => 0,
            };
            proof {
                assert((match raw_view(*r).bindings {
                    Some(b) => b.len(),
                    None => 0nat,
                }) == supplied as nat);
            }
            markers == supplied
        },
        Arg::SubQuery(sq) => check_select(&*sq.0),
        Arg::Keyword(_) => true,
    }
}

/// Checks that every condition of the list is renderable.
#[verifier::loop_isolation(false)]
pub fn check_conds(cs: &Vec<WhereCondition>) -> (ok: bool)
    ensures
        ok == conds_ok(conds_view(cs@)),
    decreases *cs,
{
    let ghost cv = conds_view(cs@);
    proof {
        lemma_conds_view_index(cs@);
        assert(cv.skip(0) =~= cv);
    }
    let n = cs.len();
    let mut i: usize = 0;
    let mut ok = true;
    while i < n
        invariant
            0 <= i <= n,
            n == cs@.len(),
            cv == conds_view(cs@),
            cv.len() == n,
            forall|j: int| 0 <= j < n ==> cv[j] == cond_view(cs@[j]),
            conds_ok(cv) == (ok && conds_ok(cv.skip(i as int))),
        decreases n - i,
    {
        let this_ok = match &cs[i] {
            WhereCondition::Group(g) => check_conds(&g.conditions),
            WhereCondition::Single(sc) => {
                let l = check_arg(&sc.left);
                let r = check_arg(&sc.right);
                l && r
            },
        };
        proof {
            assert(cv.skip(i as int)[0] == cv[i as int]);
            assert(cv.skip(i as int).skip(1) =~= cv.skip(i as int + 1));
            assert(this_ok == cond_ok(cv[i as int]));
        }
        ok = ok && this_ok;
        i += 1;
    }
    proof {
        assert(cv.skip(n as int).len() == 0);
    }
    ok
}

/// Checks that a select statement is renderable.
#[verifier::loop_isolation(false)]
pub fn check_select(s: &SelectQuery) -> (ok: bool)
    ensures
        ok == select_ok(s@),
    decreases *s,
{
    let cols_ok_res = match &s.columns {
        Some(cols) => {
            let ghost cv = columns_view(cols@);
            proof {
                lemma_columns_view_index(cols@);
                assert(cv.skip(0) =~= cv);
            }
            let n = cols.len();
            let mut i: usize = 0;
            let mut ok = true;
            while i < n
                invariant
                    0 <= i <= n,
                    n == cols@.len(),
                    cv == columns_view(cols@),
                    cv.len() == n,
                    forall|j: int| 0 <= j < n ==> cv[j] == column_view(cols@[j]),
                    columns_ok(cv) == (ok && columns_ok(cv.skip(i as int))),
                decreases n - i,
            {
                let this_ok = check_arg(&cols[i].arg);
                proof {
                    assert(cv.skip(i as int)[0] == cv[i as int]);
                    assert(cv.skip(i as int).skip(1) =~= cv.skip(i as int + 1));
                }
                ok = ok && this_ok;
                i += 1;
            }
            proof {
                assert(cv.skip(n as int).len() == 0);
            }
            ok
        },
        None => true,
    };
    let table_ok = match &s.table {
        Some(t) => check_arg(&**t),
        None => true,
    };
    let joins_ok_res = match &s.joins {
        Some(js) => {
            let ghost jv = joins_view(js@);
            proof {
                lemma_joins_view_index(js@);
                assert(jv.skip(0) =~= jv);
            }
            let n = js.len();
            let mut i: usize = 0;
            let mut ok = true;
            while i < n
                invariant
                    0 <= i <= n,
                    n == js@.len(),
                    jv == joins_view(js@),
                    jv.len() == n,
                    forall|j: int| 0 <= j < n ==> jv[j] == join_view(js@[j]),
                    joins_ok(jv) == (ok && joins_ok(jv.skip(i as int))),
                decreases n - i,
            {
                let this_ok = match &js[i] {
                    Join::Regular(rj) => {
                        let l = check_arg(&rj.left);
                        let r = check_arg(&rj.right);
                        l && r
                    },
                };
                proof {
                    assert(jv.skip(i as int)[0] == jv[i as int]);
                    assert(jv.skip(i as int).skip(1) =~= jv.skip(i as int + 1));
                }
                ok = ok && this_ok;
                i += 1;
            }
            proof {
                assert(jv.skip(n as int).len() == 0);
            }
            ok
        },
        None => true,
    };
    let conds_ok_res = check_conds(&s.where_);
    let ords_ok_res = match &s.ordering {
        Some(os) => {
            let ghost ov = orderings_view(os@);
            proof {
                lemma_orderings_view_index(os@);
                assert(ov.skip(0) =~= ov);
            }
            let n = os.len();
            let mut i: usize = 0;
            let mut ok = true;
            while i < n
                invariant
                    0 <= i <= n,
                    n == os@.len(),
                    ov == orderings_view(os@),
                    ov.len() == n,
                    forall|j: int| 0 <= j < n ==> ov[j] == ordering_view(os@[j]),
                    orderings_ok(ov) == (ok && orderings_ok(ov.skip(i as int))),
                decreases n - i,
            {
                let l = check_arg(&os[i].left);
                let r = check_arg(&os[i].right);
                let this_ok = l && r;
                proof {
                    assert(ov.skip(i as int)[0] == ov[i as int]);
                    assert(ov.skip(i as int).skip(1) =~= ov.skip(i as int + 1));
                }
                ok = ok && this_ok;
                i += 1;
            }
            proof {
                assert(ov.skip(n as int).len() == 0);
            }
            ok
        },
        None => true,
    };
    cols_ok_res && table_ok && joins_ok_res && conds_ok_res && ords_ok_res
}


/// A SQL backend's lexical choices: the identifier quote, the dialect tag,
/// and the conversion of a rendered statement into the backend's
/// execution-ready builder.
pub trait SqlDialect {
    /// The driver-specific builder a rendered statement converts into.
    type SqlxQb;

    /// The identifier quote character of this dialect.
    spec fn quote_spec() -> char;

    /// The tag of this dialect.
    spec fn dialect_spec() -> Dialect;

    /// The SQL text a driver builder of this dialect holds.
    spec fn qb_sql(b: Self::SqlxQb) -> Seq<char>;

    /// The bound values a driver builder of this dialect holds, in
    /// placeholder order.
    spec fn qb_args(b: Self::SqlxQb) -> Seq<ValueView>;

    /// Which bound-value lists this dialect's driver can encode in full.
    spec fn accepts(vals: Seq<ValueView>) -> bool;

    /// The identifier quote character of this dialect.
    fn relation_quote() -> (c: char)
        ensures
            c == Self::quote_spec(),
    ;

    /// The tag of this dialect.
    fn dialect() -> (d: Dialect)
        ensures
            d == Self::dialect_spec(),
    ;

    /// Converts a rendered statement into the backend's builder: it holds
    /// exactly the rendered text and, whenever the driver can encode every
    /// bound value, the bound values in placeholder order.
    fn into_sqlx_qb(sql: Sql) -> (b: Self::SqlxQb)
        ensures
            Self::qb_sql(b) == sql.sql@,
            Self::accepts(sql.bindings.deep_view()) ==> Self::qb_args(b)
                == sql.bindings.deep_view(),
    ;
}

} // verus!




