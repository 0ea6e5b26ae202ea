//! The mathematical model of rendering: for every statement shape, the SQL
//! text it renders to and the bound values it collects, as functions of the
//! statement alone.
//!
//! Text functions take the count `k` of values already bound by the
//! enclosing statement; every placeholder they emit is numbered from `k + 1`
//! upward, which is what keeps numbering globally sequential across nested
//! sub-queries and raw fragments.

use vstd::prelude::*;

use crate::query_builder::conditions::{CondView, ConditionOp, GroupCondView, SingleCondView};
use crate::query_builder::qb_arg::{ArgValueView, ArgView, SqlKeyword};
use crate::query_builder::query::delete::DeleteView;
use crate::query_builder::query::insert::{InsertTypeView, InsertView};
use crate::query_builder::query::select::SelectView;
use crate::query_builder::query::select::column::ColumnView;
use crate::query_builder::query::select::join::JoinView;
use crate::query_builder::query::select::ordering::OrderingView;
use crate::query_builder::query::update::UpdateView;
use crate::query_builder::value::ValueView;

verus! {

/// The character for one decimal digit.
pub open spec fn digit_char(d: nat) -> char {
    if d == 0 {
        '0'
    } else if d == 1 {
        '1'
    } else if d == 2 {
        '2'
    } else if d == 3 {
        '3'
    } else if d == 4 {
        '4'
    } else if d == 5 {
        '5'
    } else if d == 6 {
        '6'
    } else if d == 7 {
        '7'
    } else if d == 8 {
        '8'
    } else {
        '9'
    }
}

/// The decimal digits of `n`, most significant first.
pub open spec fn dec_digits(n: nat) -> Seq<char>
    decreases n,
{
    if n < 10 {
        seq![digit_char(n)]
    } else {
        dec_digits(n / 10).push(digit_char(n % 10))
    }
}

/// Concatenation of sequences is associative.
pub proof fn lemma_add_assoc<A>(a: Seq<A>, b: Seq<A>, c: Seq<A>)
    ensures
        (a + b) + c == a + (b + c),
{
    assert((a + b) + c =~= a + (b + c));
}

/// The text of the positional placeholder numbered `n`.
pub open spec fn placeholder(n: nat) -> Seq<char> {
    seq!['$'] + dec_digits(n)
}

/// The index of the first `.` in `s`, or `s.len()` if there is none.
pub open spec fn first_dot(s: Seq<char>) -> nat
    decreases s.len(),
{
    if s.len() == 0 {
        0
    } else if s[0] == '.' {
        0
    } else {
        1 + first_dot(s.skip(1))
    }
}

/// The first dot lies between 0 and the length of the text, and everything
/// before it is not a dot.
pub proof fn lemma_first_dot(s: Seq<char>)
    ensures
        first_dot(s) <= s.len(),
        forall|j: int| 0 <= j < first_dot(s) ==> s[j] != '.',
        first_dot(s) < s.len() ==> s[first_dot(s) as int] == '.',
    decreases s.len(),
{
    if s.len() == 0 {
    } else if s[0] == '.' {
    } else {
        lemma_first_dot(s.skip(1));
        assert forall|j: int| 0 <= j < first_dot(s) implies s[j] != '.' by {
            if j > 0 {
                assert(s.skip(1)[j - 1] == s[j]);
            }
        }
        if first_dot(s) < s.len() {
            assert(s.skip(1)[first_dot(s) - 1] == s[first_dot(s) as int]);
        }
    }
}

/// A position that is no dot, with everything before it no dot either, and
/// that is either the end or a dot itself, is the first dot.
pub proof fn lemma_first_dot_at(s: Seq<char>, i: int)
    requires
        0 <= i <= s.len(),
        forall|j: int| 0 <= j < i ==> s[j] != '.',
        i < s.len() ==> s[i] == '.',
    ensures
        first_dot(s) == i,
    decreases s.len(),
{
    if s.len() == 0 {
    } else if i == 0 {
    } else {
        lemma_first_dot_at(s.skip(1), i - 1);
    }
}

/// One dot-separated segment, quoted unless it is `*`.
pub open spec fn quoted_segment(seg: Seq<char>, q: char) -> Seq<char> {
    if seg == seq!['*'] {
        seg
    } else {
        seq![q] + seg + seq![q]
    }
}

/// A possibly dotted identifier: each segment quoted independently, dots
/// kept in place.
pub open spec fn relation_text(s: Seq<char>, q: char) -> Seq<char>
    decreases s.len(),
    via relation_text_decreases
{
    if first_dot(s) == s.len() {
        quoted_segment(s, q)
    } else {
        quoted_segment(s.take(first_dot(s) as int), q) + seq!['.'] + relation_text(
            s.skip(first_dot(s) as int + 1),
            q,
        )
    }
}

#[via_fn]
proof fn relation_text_decreases(s: Seq<char>, q: char) {
    lemma_first_dot(s);
}

/// The number of `?` markers in a raw fragment.
pub open spec fn marker_count(s: Seq<char>) -> nat
    decreases s.len(),
{
    if s.len() == 0 {
        0
    } else {
        (if s[0] == '?' {
            1nat
        } else {
            0nat
        }) + marker_count(s.skip(1))
    }
}

/// A raw fragment's text with `k` values already bound: each `?` in turn
/// becomes the next placeholder, every other character passes through.
pub open spec fn raw_text(s: Seq<char>, k: nat) -> Seq<char>
    decreases s.len(),
{
    if s.len() == 0 {
        Seq::empty()
    } else if s[0] == '?' {
        placeholder(k + 1) + raw_text(s.skip(1), k + 1)
    } else {
        seq![s[0]] + raw_text(s.skip(1), k)
    }
}

/// `n` fresh placeholders numbered `k + 1 .. k + n`, comma-separated.
pub open spec fn values_text(n: nat, k: nat) -> Seq<char>
    decreases n,
{
    if n == 0 {
        Seq::empty()
    } else if n == 1 {
        placeholder(k + 1)
    } else {
        values_text((n - 1) as nat, k) + seq![',', ' '] + placeholder(k + n)
    }
}

/// The fixed text of a keyword argument.
pub open spec fn keyword_text(kw: SqlKeyword) -> Seq<char> {
    match kw {
        SqlKeyword::Asc => "asc"@,
        SqlKeyword::Desc => "desc"@,
        SqlKeyword::NullsFirst => "nulls first"@,
        SqlKeyword::NullsLast => "nulls last"@,
    }
}

/// The values an argument binds, in emission order.
pub open spec fn arg_vals(a: ArgView) -> Seq<ValueView>
    decreases a,
{
    match a {
        ArgView::Relation(_) => Seq::empty(),
        ArgView::Value(ArgValueView::Value(v)) => if v is Null {
            Seq::empty()
        } else {
            seq![v]
        },
        ArgView::Value(ArgValueView::Values(vs)) => vs,
        ArgView::Raw(r) => match r.bindings {
            Some(b) => b,
            None => Seq::empty(),
        },
        ArgView::SubQuery(s) => select_vals(*s),
        ArgView::Keyword(_) => Seq::empty(),
    }
}

/// The text an argument renders to, with `k` values already bound.
pub open spec fn arg_text(a: ArgView, q: char, k: nat) -> Seq<char>
    decreases a,
{
    match a {
        ArgView::Relation(r) => relation_text(r, q),
        ArgView::Value(ArgValueView::Value(v)) => if v is Null {
            "null"@
        } else {
            placeholder(k + 1)
        },
        ArgView::Value(ArgValueView::Values(vs)) => seq!['('] + values_text(vs.len(), k) + seq![
            ')',
        ],
        ArgView::Raw(r) => raw_text(r.sql, k),
        ArgView::SubQuery(s) => seq!['('] + select_text(*s, q, k) + seq![')'] + (match (
        *s).alias {
            Some(al) => " as "@ + relation_text(al, q),
            None => Seq::empty(),
        }),
        ArgView::Keyword(kw) => keyword_text(kw),
    }
}

/// The connective of a condition node.
pub open spec fn cond_op(c: CondView) -> ConditionOp {
    match c {
        CondView::Single(s) => s.op,
        CondView::Group(g) => g.op,
    }
}

/// What a condition emits before its body: nothing for the first of a list;
/// otherwise its connective, and for a single predicate a space after it.
pub open spec fn cond_prefix(c: CondView, first: bool) -> Seq<char> {
    if first {
        Seq::empty()
    } else {
        (match cond_op(c) {
            ConditionOp::And => " and"@,
            ConditionOp::Or => " or"@,
        }) + (if c is Single {
            seq![' ']
        } else {
            Seq::empty()
        })
    }
}

/// The values a condition binds, in emission order.
pub open spec fn cond_vals(c: CondView) -> Seq<ValueView>
    decreases c,
{
    match c {
        CondView::Single(s) => arg_vals(s.left) + arg_vals(s.right),
        CondView::Group(g) => conds_vals(g.conditions),
    }
}

/// The values a condition list binds, in order.
pub open spec fn conds_vals(cs: Seq<CondView>) -> Seq<ValueView>
    decreases cs,
{
    if cs.len() == 0 {
        Seq::empty()
    } else {
        cond_vals(cs[0]) + conds_vals(cs.skip(1))
    }
}

/// The body of one condition: `left middle right` for a predicate; for a
/// group, its children — wrapped in one parenthesis pair when there are two
/// or more, bare when there is exactly one.
pub open spec fn cond_text(c: CondView, q: char, k: nat) -> Seq<char>
    decreases c,
{
    match c {
        CondView::Single(s) => arg_text(s.left, q, k) + seq![' '] + s.middle + seq![' ']
            + arg_text(s.right, q, k + arg_vals(s.left).len()),
        CondView::Group(g) => if g.conditions.len() == 1 {
            conds_text(g.conditions, q, k, true)
        } else {
            seq!['('] + conds_text(g.conditions, q, k, true) + seq![')']
        },
    }
}

/// A condition list: each condition after the first is preceded by its
/// connective; values bound so far advance the numbering.
pub open spec fn conds_text(cs: Seq<CondView>, q: char, k: nat, first: bool) -> Seq<char>
    decreases cs, 0int,
{
    if cs.len() == 0 {
        Seq::empty()
    } else {
        cond_prefix(cs[0], first) + cond_text(cs[0], q, k) + conds_text(
            cs.skip(1),
            q,
            k + cond_vals(cs[0]).len(),
            false,
        )
    }
}

/// The whole `where` clause: the keyword once, then the condition list.
pub open spec fn where_text(cs: Seq<CondView>, q: char, k: nat) -> Seq<char>
    decreases cs, 1int,
{
    if cs.len() == 0 {
        Seq::empty()
    } else {
        " where "@ + conds_text(cs, q, k, true)
    }
}

/// The values a projection item binds.
pub open spec fn column_vals(c: ColumnView) -> Seq<ValueView>
    decreases c,
{
    arg_vals(c.arg)
}

/// The values a projection list binds, in order.
pub open spec fn columns_vals(cs: Seq<ColumnView>) -> Seq<ValueView>
    decreases cs,
{
    if cs.len() == 0 {
        Seq::empty()
    } else {
        column_vals(cs[0]) + columns_vals(cs.skip(1))
    }
}

/// One projection item: its argument, then `as "alias"` if aliased.
pub open spec fn column_text(c: ColumnView, q: char, k: nat) -> Seq<char>
    decreases c,
{
    arg_text(c.arg, q, k) + (match c.alias {
        Some(al) => " as "@ + relation_text(al, q),
        None => Seq::empty(),
    })
}

/// A non-empty projection list, comma-separated, in input order.
pub open spec fn columns_text(cs: Seq<ColumnView>, q: char, k: nat, first: bool) -> Seq<char>
    decreases cs,
{
    if cs.len() == 0 {
        Seq::empty()
    } else {
        (if first {
            Seq::empty()
        } else {
            seq![',', ' ']
        }) + column_text(cs[0], q, k) + columns_text(cs.skip(1), q, k + column_vals(cs[0]).len(), false)
    }
}

/// The projection section of a select: ` *` when no explicit non-empty
/// column list is present, else the columns.
pub open spec fn projection_text(cols: Option<Seq<ColumnView>>, q: char, k: nat) -> Seq<char>
    decreases cols,
{
    match cols {
        Some(cs) => if cs.len() == 0 {
            seq![' ', '*']
        } else {
            seq![' '] + columns_text(cs, q, k, true)
        },
        None => seq![' ', '*'],
    }
}

/// The values the projection section binds.
pub open spec fn projection_vals(cols: Option<Seq<ColumnView>>) -> Seq<ValueView>
    decreases cols,
{
    match cols {
        Some(cs) => columns_vals(cs),
        None => Seq::empty(),
    }
}

/// The values one join binds: its `on` predicate's sides, left then right.
pub open spec fn join_vals(j: JoinView) -> Seq<ValueView>
    decreases j,
{
    arg_vals(j.left) + arg_vals(j.right)
}

/// The values a join list binds, in order.
pub open spec fn joins_vals(js: Seq<JoinView>) -> Seq<ValueView>
    decreases js,
{
    if js.len() == 0 {
        Seq::empty()
    } else {
        join_vals(js[0]) + joins_vals(js.skip(1))
    }
}

/// One join clause: ` [kind] join "table" on left op right`.
pub open spec fn join_text(j: JoinView, q: char, k: nat) -> Seq<char>
    decreases j,
{
    (match j.join_type {
        Some(t) => seq![' '] + t,
        None => Seq::empty(),
    }) + " join "@ + relation_text(j.table, q) + " on "@ + arg_text(j.left, q, k) + seq![' ']
        + j.op + seq![' '] + arg_text(j.right, q, k + arg_vals(j.left).len())
}

/// A join list, one clause after another.
pub open spec fn joins_text(js: Seq<JoinView>, q: char, k: nat) -> Seq<char>
    decreases js,
{
    if js.len() == 0 {
        Seq::empty()
    } else {
        join_text(js[0], q, k) + joins_text(js.skip(1), q, k + join_vals(js[0]).len())
    }
}

/// The values one `order by` item binds: left side then right side.
pub open spec fn ordering_vals(o: OrderingView) -> Seq<ValueView>
    decreases o,
{
    arg_vals(o.left) + arg_vals(o.right)
}

/// The values an `order by` list binds, in order.
pub open spec fn orderings_vals(os: Seq<OrderingView>) -> Seq<ValueView>
    decreases os,
{
    if os.len() == 0 {
        Seq::empty()
    } else {
        ordering_vals(os[0]) + orderings_vals(os.skip(1))
    }
}

/// One `order by` item: `left right`, then the explicit null ordering if
/// one was given.
pub open spec fn ordering_text(o: OrderingView, q: char, k: nat) -> Seq<char>
    decreases o,
{
    arg_text(o.left, q, k) + seq![' '] + arg_text(o.right, q, k + arg_vals(o.left).len()) + (match o.null_first {
        Some(true) => " nulls first"@,
        Some(false) => " nulls last"@,
        None => Seq::empty(),
    })
}

/// An `order by` list, comma-separated.
pub open spec fn orderings_text(os: Seq<OrderingView>, q: char, k: nat, first: bool) -> Seq<char>
    decreases os,
{
    if os.len() == 0 {
        Seq::empty()
    } else {
        (if first {
            Seq::empty()
        } else {
            seq![',', ' ']
        }) + ordering_text(os[0], q, k) + orderings_text(
            os.skip(1),
            q,
            k + ordering_vals(os[0]).len(),
            false,
        )
    }
}

/// The values a select statement binds: projection, source, joins,
/// conditions, ordering — in exactly the order their placeholders appear.
pub open spec fn select_vals(s: SelectView) -> Seq<ValueView>
    decreases s,
{
    projection_vals(s.columns) + (match s.table {
        Some(t) => arg_vals(t),
        None => Seq::empty(),
    }) + (match s.joins {
        Some(js) => joins_vals(js),
        None => Seq::empty(),
    }) + conds_vals(s.where_) + (match s.ordering {
        Some(os) => orderings_vals(os),
        None => Seq::empty(),
    })
}

/// The text of a select statement, with `k` values already bound by the
/// enclosing statement. The alias is not rendered here: it belongs to the
/// sub-query argument that carries the statement.
pub open spec fn select_text(s: SelectView, q: char, k: nat) -> Seq<char>
    decreases s,
{
    let k_table = k + projection_vals(s.columns).len();
    let k_joins = k_table + (match s.table {
        Some(t) => arg_vals(t),
        None => Seq::empty(),
    }).len();
    let k_where = k_joins + (match s.joins {
        Some(js) => joins_vals(js),
        None => Seq::empty(),
    }).len();
    let k_order = k_where + conds_vals(s.where_).len();
    "select"@ + projection_text(s.columns, q, k) + (match s.table {
        Some(t) => " from "@ + arg_text(t, q, k_table),
        None => Seq::empty(),
    }) + (match s.joins {
        Some(js) => joins_text(js, q, k_joins),
        None => Seq::empty(),
    }) + where_text(s.where_, q, k_where) + (match s.ordering {
        Some(os) => " order by "@ + orderings_text(os, q, k_order, true),
        None => Seq::empty(),
    }) + (match s.limit {
        Some(l) => " limit "@ + dec_digits(l as nat),
        None => Seq::empty(),
    }) + (match s.offset {
        Some(o) => " offset "@ + dec_digits(o as nat),
        None => Seq::empty(),
    })
}

/// The text of the first half of a select statement: the keyword, the
/// projection, the source and the joins.
pub open spec fn select_front_text(s: SelectView, q: char, k: nat) -> Seq<char> {
    let k_table = k + projection_vals(s.columns).len();
    let k_joins = k_table + (match s.table {
        Some(t) => arg_vals(t),
        None => Seq::empty(),
    }).len();
    "select"@ + projection_text(s.columns, q, k) + (match s.table {
        Some(t) => " from "@ + arg_text(t, q, k_table),
        None => Seq::empty(),
    }) + (match s.joins {
        Some(js) => joins_text(js, q, k_joins),
        None => Seq::empty(),
    })
}

/// The values the first half of a select binds.
pub open spec fn select_front_vals(s: SelectView) -> Seq<ValueView> {
    projection_vals(s.columns) + (match s.table {
        Some(t) => arg_vals(t),
        None => Seq::empty(),
    }) + (match s.joins {
        Some(js) => joins_vals(js),
        None => Seq::empty(),
    })
}

/// The text of the second half of a select statement: the condition tree,
/// the ordering and the paging clauses.
pub open spec fn select_back_text(s: SelectView, q: char, k: nat) -> Seq<char> {
    let k_order = k + conds_vals(s.where_).len();
    where_text(s.where_, q, k) + (match s.ordering {
        Some(os) => " order by "@ + orderings_text(os, q, k_order, true),
        None => Seq::empty(),
    }) + (match s.limit {
        Some(l) => " limit "@ + dec_digits(l as nat),
        None => Seq::empty(),
    }) + (match s.offset {
        Some(o) => " offset "@ + dec_digits(o as nat),
        None => Seq::empty(),
    })
}

/// The values the second half of a select binds.
pub open spec fn select_back_vals(s: SelectView) -> Seq<ValueView> {
    conds_vals(s.where_) + (match s.ordering {
        Some(os) => orderings_vals(os),
        None => Seq::empty(),
    })
}

/// A select statement's text and values split at the `where` keyword.
pub proof fn lemma_select_split(s: SelectView, q: char, k: nat)
    ensures
        select_text(s, q, k) == select_front_text(s, q, k) + select_back_text(
            s,
            q,
            k + select_front_vals(s).len(),
        ),
        select_vals(s) == select_front_vals(s) + select_back_vals(s),
{
    let k_table = k + projection_vals(s.columns).len();
    let tv = (match s.table {
        Some(t) => arg_vals(t),
        None => Seq::<ValueView>::empty(),
    });
    let jvs = (match s.joins {
        Some(js) => joins_vals(js),
        None => Seq::<ValueView>::empty(),
    });
    let k_joins = k_table + tv.len();
    let k_where = k_joins + jvs.len();
    let k_order = k_where + conds_vals(s.where_).len();
    let front = select_front_text(s, q, k);
    let e = where_text(s.where_, q, k_where);
    let f = (match s.ordering {
        Some(os) => " order by "@ + orderings_text(os, q, k_order, true),
        None => Seq::<char>::empty(),
    });
    let g = (match s.limit {
        Some(l) => " limit "@ + dec_digits(l as nat),
        None => Seq::<char>::empty(),
    });
    let h = (match s.offset {
        Some(o) => " offset "@ + dec_digits(o as nat),
        None => Seq::<char>::empty(),
    });
    assert(select_front_vals(s).len() == projection_vals(s.columns).len() + tv.len() + jvs.len());
    assert(select_text(s, q, k) == (((front + e) + f) + g) + h);
    assert(select_back_text(s, q, k_where as nat) == ((e + f) + g) + h);
    lemma_add_assoc(front, e, f);
    lemma_add_assoc(front, e + f, g);
    lemma_add_assoc(front, (e + f) + g, h);
    let pv = projection_vals(s.columns);
    let cv = conds_vals(s.where_);
    let ov = (match s.ordering {
        Some(os) => orderings_vals(os),
        None => Seq::<ValueView>::empty(),
    });
    assert(select_vals(s) == (((pv + tv) + jvs) + cv) + ov);
    lemma_add_assoc((pv + tv) + jvs, cv, ov);
}

/// An argument is renderable: every raw fragment in it has as many `?`
/// markers as supplied values, recursively through sub-queries.
pub open spec fn arg_ok(a: ArgView) -> bool
    decreases a,
{
    match a {
        ArgView::Relation(_) => true,
        ArgView::Value(_) => true,
        ArgView::Raw(r) => marker_count(r.sql) == (match r.bindings {
            Some(b) => b.len(),
            None => 0,
        }),
        ArgView::SubQuery(s) => select_ok(*s),
        ArgView::Keyword(_) => true,
    }
}

/// Every condition of the tree is renderable.
pub open spec fn cond_ok(c: CondView) -> bool
    decreases c,
{
    match c {
        CondView::Single(s) => arg_ok(s.left) && arg_ok(s.right),
        CondView::Group(g) => conds_ok(g.conditions),
    }
}

/// Every condition of the list is renderable.
pub open spec fn conds_ok(cs: Seq<CondView>) -> bool
    decreases cs,
{
    if cs.len() == 0 {
        true
    } else {
        cond_ok(cs[0]) && conds_ok(cs.skip(1))
    }
}

/// Every projection item is renderable.
pub open spec fn columns_ok(cs: Seq<ColumnView>) -> bool
    decreases cs,
{
    if cs.len() == 0 {
        true
    } else {
        arg_ok(cs[0].arg) && columns_ok(cs.skip(1))
    }
}

/// Every join is renderable.
pub open spec fn joins_ok(js: Seq<JoinView>) -> bool
    decreases js,
{
    if js.len() == 0 {
        true
    } else {
        arg_ok(js[0].left) && arg_ok(js[0].right) && joins_ok(js.skip(1))
    }
}

/// Every `order by` item is renderable.
pub open spec fn orderings_ok(os: Seq<OrderingView>) -> bool
    decreases os,
{
    if os.len() == 0 {
        true
    } else {
        arg_ok(os[0].left) && arg_ok(os[0].right) && orderings_ok(os.skip(1))
    }
}

/// A select statement is renderable: every raw fragment reachable from a
/// rendered section is well shaped.
pub open spec fn select_ok(s: SelectView) -> bool
    decreases s,
{
    (match s.columns {
        Some(cs) => columns_ok(cs),
        None => true,
    }) && (match s.table {
        Some(t) => arg_ok(t),
        None => true,
    }) && (match s.joins {
        Some(js) => joins_ok(js),
        None => true,
    }) && conds_ok(s.where_) && (match s.ordering {
        Some(os) => orderings_ok(os),
        None => true,
    })
}

/// The declared column names of an insert, double-quoted and
/// comma-separated. Insert column names are plain identifiers: they are not
/// split on dots.
pub open spec fn insert_columns_text(cols: Seq<Seq<char>>) -> Seq<char>
    decreases cols,
{
    if cols.len() == 0 {
        Seq::empty()
    } else if cols.len() == 1 {
        seq!['"'] + cols[0] + seq!['"']
    } else {
        insert_columns_text(cols.drop_last()) + seq![',', ' '] + seq!['"'] + cols.last() + seq![
            '"',
        ]
    }
}

/// The `values` tuples of an insert: `nrows` parenthesized tuples of
/// `ncols` placeholders each, numbered sequentially from 1.
pub open spec fn insert_tuples_text(nrows: nat, ncols: nat) -> Seq<char>
    decreases nrows,
{
    if nrows == 0 {
        Seq::empty()
    } else if nrows == 1 {
        seq!['('] + values_text(ncols, 0) + seq![')']
    } else {
        insert_tuples_text((nrows - 1) as nat, ncols) + seq![',', ' '] + seq!['('] + values_text(
            ncols,
            ((nrows - 1) * ncols) as nat,
        ) + seq![')']
    }
}

/// An insert is renderable: it is fed by literal rows, and if it has any
/// values their count is a positive multiple of the declared column count.
pub open spec fn insert_ok(i: InsertView) -> bool {
    &&& i.inner is WithValues
    &&& {
        let vals = i.inner->WithValues_0;
        vals.len() == 0 || (match i.ordered_columns {
            Some(cols) => cols.len() > 0 && vals.len() % cols.len() == 0,
            None => false,
        })
    }
}

/// The values an insert binds: its flattened row values, in order.
pub open spec fn insert_vals(i: InsertView) -> Seq<ValueView> {
    i.inner->WithValues_0
}

/// The text of an insert statement.
pub open spec fn insert_text(i: InsertView, q: char) -> Seq<char> {
    let vals = i.inner->WithValues_0;
    "insert"@ + (match i.table {
        Some(t) => " into "@ + relation_text(t, q),
        None => Seq::empty(),
    }) + (match i.ordered_columns {
        Some(cols) => seq![' ', '('] + insert_columns_text(cols) + seq![')'],
        None => Seq::empty(),
    }) + (if vals.len() > 0 {
        " values "@ + insert_tuples_text(
            vals.len() / (match i.ordered_columns {
                Some(cols) => cols.len(),
                None => 1,
            }),
            match i.ordered_columns {
                Some(cols) => cols.len(),
                None => 1,
            },
        )
    } else {
        Seq::empty()
    })
}

/// The `set` clause pairs of an update: `"column" = $n` with `n` counted
/// from 1, comma-separated.
pub open spec fn set_pairs_text(cols: Seq<Seq<char>>, q: char) -> Seq<char>
    decreases cols,
{
    if cols.len() == 0 {
        Seq::empty()
    } else {
        set_pairs_text(cols.drop_last(), q) + (if cols.len() > 1 {
            seq![',']
        } else {
            Seq::empty()
        }) + seq![' '] + relation_text(cols.last(), q) + " = "@ + placeholder(cols.len())
    }
}

/// An update is renderable: every raw fragment of its condition tree is
/// well shaped.
pub open spec fn update_ok(u: UpdateView) -> bool {
    conds_ok(u.where_clause)
}

/// The values an update binds: the row values first (they are numbered
/// before the `set` clause is written), then the condition values.
pub open spec fn update_vals(u: UpdateView) -> Seq<ValueView> {
    u.values + conds_vals(u.where_clause)
}

/// The text of an update statement. Condition placeholders continue after
/// the row values' numbering.
pub open spec fn update_text(u: UpdateView, q: char) -> Seq<char> {
    "update"@ + (match u.table {
        Some(t) => seq![' '] + relation_text(t, q),
        None => Seq::empty(),
    }) + " set"@ + set_pairs_text(u.columns, q) + where_text(u.where_clause, q, u.values.len())
}

/// A delete is renderable: every raw fragment of its condition tree is
/// well shaped.
pub open spec fn delete_ok(d: DeleteView) -> bool {
    conds_ok(d.where_clause)
}

/// The values a delete binds: its condition values, in order.
pub open spec fn delete_vals(d: DeleteView) -> Seq<ValueView> {
    conds_vals(d.where_clause)
}

/// The text of a delete statement.
pub open spec fn delete_text(d: DeleteView, q: char) -> Seq<char> {
    "delete"@ + (match d.table {
        Some(t) => " from "@ + relation_text(t, q),
        None => Seq::empty(),
    }) + where_text(d.where_clause, q, 0)
}

} // verus!
