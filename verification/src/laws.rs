//! The library's laws: properties of the rendering model that hold for
//! every statement, stated and proved once, over the same spec functions
//! that the renderer's contracts use.

use vstd::prelude::*;

use crate::query_builder::conditions::{CondView, GroupCondView};
use crate::query_builder::qb_arg::{ArgValueView, ArgView};
use crate::query_builder::query::select::SelectView;
use crate::query_builder::query::select::column::ColumnView;
use crate::query_builder::query::select::join::JoinView;
use crate::query_builder::query::select::ordering::OrderingView;
use crate::query_builder::value::ValueView;
use crate::sql_dialect::model::{
    arg_ok, arg_vals, column_text, column_vals, columns_text, columns_vals, cond_text,
    cond_vals, conds_ok, conds_text, conds_vals, join_vals, joins_vals, marker_count,
    ordering_vals, orderings_vals, projection_vals, select_ok, select_text, select_vals,
};

verus! {

/// Sequences joined by a separator: the first as it is, every later one
/// preceded by the separator.
pub open spec fn joined(parts: Seq<Seq<char>>, sep: Seq<char>) -> Seq<char>
    decreases parts,
{
    if parts.len() == 0 {
        Seq::empty()
    } else if parts.len() == 1 {
        parts[0]
    } else {
        joined(parts.drop_last(), sep) + sep + parts.last()
    }
}

/// The placeholder count in force at projection item `i`: the enclosing
/// count plus the values bound by the items before `i`.
pub open spec fn columns_k_at(cs: Seq<ColumnView>, k: nat, i: int) -> nat
    decreases i,
{
    if i <= 0 {
        k
    } else {
        columns_k_at(cs, k, i - 1) + column_vals(cs[i - 1]).len()
    }
}

/// Rendering preserves projection order: every projection renders as its
/// items' texts, in input order, comma-separated. Item `i`'s text is its
/// argument rendered at the running placeholder count, followed by
/// ` as "alias"` exactly when the item is aliased — both fixed by
/// `column_text`.
pub proof fn lemma_projection_preserves_order(cs: Seq<ColumnView>, q: char, k: nat)
    ensures
        columns_text(cs, q, k, true) == joined(
            Seq::new(cs.len(), |i: int| column_text(cs[i], q, columns_k_at(cs, k, i))),
            seq![',', ' '],
        ),
    decreases cs.len(),
{
    let parts = Seq::new(cs.len(), |i: int| column_text(cs[i], q, columns_k_at(cs, k, i)));
    if cs.len() == 0 {
    } else {
        assert(columns_k_at(cs, k, 0) == k);
        lemma_projection_preserves_order_from(cs, q, k, 1);
        if cs.len() == 1 {
            assert(columns_text(cs.skip(1), q, k + column_vals(cs[0]).len(), false)
                =~= Seq::<char>::empty());
            assert(columns_text(cs, q, k, true) =~= parts[0]);
        } else {
            assert(columns_text(cs, q, k, true) =~= column_text(cs[0], q, k) + columns_text(
                cs.skip(1),
                q,
                columns_k_at(cs, k, 1),
                false,
            ));
            lemma_joined_unroll(parts, seq![',', ' ']);
        }
    }
}

/// The tail of the projection-order law: from position `i` on, each item is
/// preceded by the separator and rendered at its running placeholder count.
proof fn lemma_projection_preserves_order_from(cs: Seq<ColumnView>, q: char, k: nat, i: int)
    requires
        1 <= i <= cs.len(),
    ensures
        columns_text(cs.skip(i), q, columns_k_at(cs, k, i), false) == joined_tail(
            Seq::new(cs.len(), |j: int| column_text(cs[j], q, columns_k_at(cs, k, j))),
            seq![',', ' '],
            i,
        ),
    decreases cs.len() - i,
{
    let parts = Seq::new(cs.len(), |j: int| column_text(cs[j], q, columns_k_at(cs, k, j)));
    if i == cs.len() {
        assert(columns_text(cs.skip(i), q, columns_k_at(cs, k, i), false)
            =~= Seq::<char>::empty());
    } else {
        assert(cs.skip(i)[0] == cs[i]);
        assert(cs.skip(i).skip(1) =~= cs.skip(i + 1));
        assert(columns_k_at(cs, k, i) + column_vals(cs[i]).len() == columns_k_at(cs, k, i + 1));
        lemma_projection_preserves_order_from(cs, q, k, i + 1);
        assert(columns_text(cs.skip(i), q, columns_k_at(cs, k, i), false) =~= (seq![',', ' ']
            + column_text(cs[i], q, columns_k_at(cs, k, i))) + columns_text(
            cs.skip(i + 1),
            q,
            columns_k_at(cs, k, i + 1),
            false,
        ));
        assert(joined_tail(parts, seq![',', ' '], i) =~= (seq![',', ' '] + parts[i])
            + joined_tail(parts, seq![',', ' '], i + 1));
    }
}

/// The part of a joined list after the first `i` items: separator before
/// each remaining item.
pub open spec fn joined_tail(parts: Seq<Seq<char>>, sep: Seq<char>, i: int) -> Seq<char>
    decreases parts.len() - i,
{
    if i < 0 || i >= parts.len() {
        Seq::empty()
    } else {
        sep + parts[i] + joined_tail(parts, sep, i + 1)
    }
}

/// `joined` agrees with its first item followed by its tail.
pub proof fn lemma_joined_unroll(parts: Seq<Seq<char>>, sep: Seq<char>)
    requires
        parts.len() > 0,
    ensures
        joined(parts, sep) == parts[0] + joined_tail(parts, sep, 1),
    decreases parts.len(),
{
    if parts.len() == 1 {
        assert(joined_tail(parts, sep, 1) =~= Seq::<char>::empty());
        assert(parts[0] + joined_tail(parts, sep, 1) =~= parts[0]);
    } else {
        lemma_joined_unroll(parts.drop_last(), sep);
        lemma_joined_tail_push(parts, sep, 1);
    }
}

/// Dropping the last item of a joined list drops its last separated piece.
proof fn lemma_joined_tail_push(parts: Seq<Seq<char>>, sep: Seq<char>, i: int)
    requires
        0 <= i <= parts.len() - 1,
        parts.len() >= 1,
    ensures
        joined_tail(parts, sep, i) == joined_tail(parts.drop_last(), sep, i) + (sep
            + parts.last()),
    decreases parts.len() - i,
{
    if i == parts.len() - 1 {
        assert(joined_tail(parts.drop_last(), sep, i) =~= Seq::<char>::empty());
        assert(joined_tail(parts, sep, i + 1) =~= Seq::<char>::empty());
        assert(joined_tail(parts, sep, i) =~= (Seq::<char>::empty() + (sep + parts.last())));
        assert(joined_tail(parts, sep, i) == joined_tail(parts.drop_last(), sep, i) + (sep
            + parts.last()));
    } else {
        assert(parts.drop_last()[i] == parts[i]);
        lemma_joined_tail_push(parts, sep, i + 1);
        assert(joined_tail(parts, sep, i) =~= joined_tail(parts.drop_last(), sep, i) + (sep
            + parts.last()));
    }
}

/// An argument that carries no bindable literal: a relation, a keyword, an
/// inline `null`, an empty literal list, a raw fragment without values, or
/// a sub-query all of whose arguments are such.
pub open spec fn arg_unbound(a: ArgView) -> bool
    decreases a,
{
    match a {
        ArgView::Relation(_) => true,
        ArgView::Value(ArgValueView::Value(v)) => v is Null,
        ArgView::Value(ArgValueView::Values(vs)) => vs.len() == 0,
        ArgView::Raw(r) => match r.bindings {
            Some(b) => b.len() == 0,
            None => true,
        },
        ArgView::SubQuery(s) => select_unbound(*s),
        ArgView::Keyword(_) => true,
    }
}

/// A condition tree of any shape none of whose predicates carries a
/// bindable literal.
pub open spec fn cond_unbound(c: CondView) -> bool
    decreases c,
{
    match c {
        CondView::Single(s) => arg_unbound(s.left) && arg_unbound(s.right),
        CondView::Group(g) => conds_unbound(g.conditions),
    }
}

/// Every condition of the list is free of bindable literals.
pub open spec fn conds_unbound(cs: Seq<CondView>) -> bool
    decreases cs,
{
    if cs.len() == 0 {
        true
    } else {
        cond_unbound(cs[0]) && conds_unbound(cs.skip(1))
    }
}

/// A select statement with zero bound arguments anywhere.
pub open spec fn select_unbound(s: SelectView) -> bool
    decreases s,
{
    (match s.columns {
        Some(cs) => columns_unbound(cs),
        None => true,
    }) && (match s.table {
        Some(t) => arg_unbound(t),
        None => true,
    }) && (match s.joins {
        Some(js) => joins_unbound(js),
        None => true,
    }) && conds_unbound(s.where_) && (match s.ordering {
        Some(os) => orderings_unbound(os),
        None => true,
    })
}

/// Every projection item is free of bindable literals.
pub open spec fn columns_unbound(cs: Seq<ColumnView>) -> bool
    decreases cs,
{
    if cs.len() == 0 {
        true
    } else {
        arg_unbound(cs[0].arg) && columns_unbound(cs.skip(1))
    }
}

/// Every join predicate is free of bindable literals.
pub open spec fn joins_unbound(js: Seq<JoinView>) -> bool
    decreases js,
{
    if js.len() == 0 {
        true
    } else {
        arg_unbound(js[0].left) && arg_unbound(js[0].right) && joins_unbound(js.skip(1))
    }
}

/// Every `order by` item is free of bindable literals.
pub open spec fn orderings_unbound(os: Seq<OrderingView>) -> bool
    decreases os,
{
    if os.len() == 0 {
        true
    } else {
        arg_unbound(os[0].left) && arg_unbound(os[0].right) && orderings_unbound(os.skip(1))
    }
}

/// An unbound argument binds no values.
pub proof fn lemma_arg_unbound_no_vals(a: ArgView)
    requires
        arg_unbound(a),
    ensures
        arg_vals(a) == Seq::<ValueView>::empty(),
    decreases a,
{
    match a {
        ArgView::Value(ArgValueView::Values(vs)) => {
            assert(vs =~= Seq::<ValueView>::empty());
        },
        ArgView::Raw(r) => {
            match r.bindings {
                Some(b) => {
                    assert(b =~= Seq::<ValueView>::empty());
                },
                None => {},
            }
        },
        ArgView::SubQuery(s) => {
            lemma_unbound_select_has_no_bindings(*s);
        },
        _ => {},
    }
}

/// An unbound condition tree binds no values.
pub proof fn lemma_cond_unbound_no_vals(c: CondView)
    requires
        cond_unbound(c),
    ensures
        cond_vals(c) == Seq::<ValueView>::empty(),
    decreases c,
{
    match c {
        CondView::Single(s) => {
            lemma_arg_unbound_no_vals(s.left);
            lemma_arg_unbound_no_vals(s.right);
            assert(cond_vals(c) =~= Seq::<ValueView>::empty());
        },
        CondView::Group(g) => {
            lemma_conds_unbound_no_vals(g.conditions);
        },
    }
}

/// An unbound condition list binds no values.
pub proof fn lemma_conds_unbound_no_vals(cs: Seq<CondView>)
    requires
        conds_unbound(cs),
    ensures
        conds_vals(cs) == Seq::<ValueView>::empty(),
    decreases cs,
{
    if cs.len() == 0 {
    } else {
        lemma_cond_unbound_no_vals(cs[0]);
        lemma_conds_unbound_no_vals(cs.skip(1));
        assert(conds_vals(cs) =~= Seq::<ValueView>::empty());
    }
}

/// An unbound projection binds no values.
pub proof fn lemma_columns_unbound_no_vals(cs: Seq<ColumnView>)
    requires
        columns_unbound(cs),
    ensures
        columns_vals(cs) == Seq::<ValueView>::empty(),
    decreases cs,
{
    if cs.len() == 0 {
    } else {
        lemma_arg_unbound_no_vals(cs[0].arg);
        lemma_columns_unbound_no_vals(cs.skip(1));
        assert(column_vals(cs[0]) =~= Seq::<ValueView>::empty());
        assert(columns_vals(cs) =~= Seq::<ValueView>::empty());
    }
}

/// Unbound joins bind no values.
pub proof fn lemma_joins_unbound_no_vals(js: Seq<JoinView>)
    requires
        joins_unbound(js),
    ensures
        joins_vals(js) == Seq::<ValueView>::empty(),
    decreases js,
{
    if js.len() == 0 {
    } else {
        lemma_arg_unbound_no_vals(js[0].left);
        lemma_arg_unbound_no_vals(js[0].right);
        lemma_joins_unbound_no_vals(js.skip(1));
        assert(join_vals(js[0]) =~= Seq::<ValueView>::empty());
        assert(joins_vals(js) =~= Seq::<ValueView>::empty());
    }
}

/// An unbound ordering binds no values.
pub proof fn lemma_orderings_unbound_no_vals(os: Seq<OrderingView>)
    requires
        orderings_unbound(os),
    ensures
        orderings_vals(os) == Seq::<ValueView>::empty(),
    decreases os,
{
    if os.len() == 0 {
    } else {
        lemma_arg_unbound_no_vals(os[0].left);
        lemma_arg_unbound_no_vals(os[0].right);
        lemma_orderings_unbound_no_vals(os.skip(1));
        assert(ordering_vals(os[0]) =~= Seq::<ValueView>::empty());
        assert(orderings_vals(os) =~= Seq::<ValueView>::empty());
    }
}

/// A statement with zero bound arguments collects an empty bound-value
/// list, regardless of the shape of its condition tree: together with the
/// render contract, its rendered binding list is empty.
pub proof fn lemma_unbound_select_has_no_bindings(s: SelectView)
    requires
        select_unbound(s),
    ensures
        select_vals(s) == Seq::<ValueView>::empty(),
    decreases s,
{
    match s.columns {
        Some(cs) => lemma_columns_unbound_no_vals(cs),
        None => {},
    }
    match s.table {
        Some(t) => lemma_arg_unbound_no_vals(t),
        None => {},
    }
    match s.joins {
        Some(js) => lemma_joins_unbound_no_vals(js),
        None => {},
    }
    lemma_conds_unbound_no_vals(s.where_);
    match s.ordering {
        Some(os) => lemma_orderings_unbound_no_vals(os),
        None => {},
    }
    assert(select_vals(s) =~= Seq::<ValueView>::empty());
}

/// Rendering is a pure function of the statement: two statements with the
/// same shape render to identical text and collect identical bound-value
/// lists, so rendering the same statement twice without intervening
/// mutation yields byte-identical output.
pub proof fn lemma_render_deterministic(s1: SelectView, s2: SelectView, q: char, k: nat)
    requires
        s1 == s2,
    ensures
        select_text(s1, q, k) == select_text(s2, q, k),
        select_vals(s1) == select_vals(s2),
{
}

/// A group with exactly one child renders as the child alone, without
/// parentheses and without the group's own connective; a group with any
/// other child count renders its children inside exactly one enclosing
/// parenthesis pair.
pub proof fn lemma_group_parentheses(g: GroupCondView, q: char, k: nat)
    ensures
        g.conditions.len() == 1 ==> cond_text(CondView::Group(g), q, k) == conds_text(
            g.conditions,
            q,
            k,
            true,
        ),
        g.conditions.len() != 1 ==> cond_text(CondView::Group(g), q, k) == seq!['('] + conds_text(
            g.conditions,
            q,
            k,
            true,
        ) + seq![')'],
{
}


/// The placeholder numbers `k + 1 .. k + n`, in order.
pub open spec fn idx_range(k: nat, n: nat) -> Seq<nat> {
    Seq::new(n, |i: int| (k + 1 + i) as nat)
}

/// Two adjacent runs of placeholder numbers form one run.
pub proof fn lemma_idx_range_concat(k: nat, n1: nat, n2: nat)
    ensures
        idx_range(k, n1) + idx_range(k + n1, n2) == idx_range(k, n1 + n2),
{
    assert(idx_range(k, n1) + idx_range(k + n1, n2) =~= idx_range(k, n1 + n2));
}

/// The placeholder numbers an argument's rendering assigns, in emission
/// order, when `k` values are already bound.
pub open spec fn arg_indices(a: ArgView, k: nat) -> Seq<nat>
    decreases a,
{
    match a {
        ArgView::Relation(_) => Seq::empty(),
        ArgView::Value(ArgValueView::Value(v)) => if v is Null {
            Seq::empty()
        } else {
            seq![(k + 1) as nat]
        },
        ArgView::Value(ArgValueView::Values(vs)) => idx_range(k, vs.len()),
        ArgView::Raw(r) => idx_range(k, marker_count(r.sql)),
        ArgView::SubQuery(s) => select_indices(*s, k),
        ArgView::Keyword(_) => Seq::empty(),
    }
}

/// The placeholder numbers a condition assigns.
pub open spec fn cond_indices(c: CondView, k: nat) -> Seq<nat>
    decreases c,
{
    match c {
        CondView::Single(s) => arg_indices(s.left, k) + arg_indices(
            s.right,
            k + arg_vals(s.left).len(),
        ),
        CondView::Group(g) => conds_indices(g.conditions, k),
    }
}

/// The placeholder numbers a condition list assigns.
pub open spec fn conds_indices(cs: Seq<CondView>, k: nat) -> Seq<nat>
    decreases cs,
{
    if cs.len() == 0 {
        Seq::empty()
    } else {
        cond_indices(cs[0], k) + conds_indices(cs.skip(1), k + cond_vals(cs[0]).len())
    }
}

/// The placeholder numbers a projection assigns.
pub open spec fn columns_indices(cs: Seq<ColumnView>, k: nat) -> Seq<nat>
    decreases cs,
{
    if cs.len() == 0 {
        Seq::empty()
    } else {
        arg_indices(cs[0].arg, k) + columns_indices(cs.skip(1), k + column_vals(cs[0]).len())
    }
}

/// The placeholder numbers a join list assigns.
pub open spec fn joins_indices(js: Seq<JoinView>, k: nat) -> Seq<nat>
    decreases js,
{
    if js.len() == 0 {
        Seq::empty()
    } else {
        arg_indices(js[0].left, k) + arg_indices(js[0].right, k + arg_vals(js[0].left).len())
            + joins_indices(js.skip(1), k + join_vals(js[0]).len())
    }
}

/// The placeholder numbers an `order by` list assigns.
pub open spec fn orderings_indices(os: Seq<OrderingView>, k: nat) -> Seq<nat>
    decreases os,
{
    if os.len() == 0 {
        Seq::empty()
    } else {
        arg_indices(os[0].left, k) + arg_indices(os[0].right, k + arg_vals(os[0].left).len())
            + orderings_indices(os.skip(1), k + ordering_vals(os[0]).len())
    }
}

/// The placeholder numbers a whole select statement assigns, across its
/// projection, source, joins, condition tree and ordering, in emission
/// order.
pub open spec fn select_indices(s: SelectView, k: nat) -> Seq<nat>
    decreases s,
{
    let k_table = k + projection_vals(s.columns).len();
    let k_joins = k_table + (match s.table {
        Some(t) => arg_vals(t),
        None => Seq::<ValueView>::empty(),
    }).len();
    let k_where = k_joins + (match s.joins {
        Some(js) => joins_vals(js),
        None => Seq::<ValueView>::empty(),
    }).len();
    let k_order = k_where + conds_vals(s.where_).len();
    (match s.columns {
        Some(cs) => columns_indices(cs, k),
        None => Seq::<nat>::empty(),
    }) + (match s.table {
        Some(t) => arg_indices(t, k_table),
        None => Seq::<nat>::empty(),
    }) + (match s.joins {
        Some(js) => joins_indices(js, k_joins),
        None => Seq::<nat>::empty(),
    }) + conds_indices(s.where_, k_where) + (match s.ordering {
        Some(os) => orderings_indices(os, k_order),
        None => Seq::<nat>::empty(),
    })
}

/// A renderable argument assigns exactly the next run of placeholder
/// numbers: one fresh number per value it binds, consecutively.
pub proof fn lemma_arg_indices_sequential(a: ArgView, k: nat)
    requires
        arg_ok(a),
    ensures
        arg_indices(a, k) == idx_range(k, arg_vals(a).len()),
    decreases a,
{
    match a {
        ArgView::Relation(_) => {
            assert(arg_indices(a, k) =~= idx_range(k, arg_vals(a).len()));
        },
        ArgView::Value(ArgValueView::Value(v)) => {
            assert(arg_indices(a, k) =~= idx_range(k, arg_vals(a).len()));
        },
        ArgView::Value(ArgValueView::Values(vs)) => {
            assert(arg_indices(a, k) =~= idx_range(k, arg_vals(a).len()));
        },
        ArgView::Raw(r) => {
            assert(arg_indices(a, k) =~= idx_range(k, arg_vals(a).len()));
        },
        ArgView::SubQuery(s) => {
            lemma_select_indices_sequential(*s, k);
        },
        ArgView::Keyword(_) => {
            assert(arg_indices(a, k) =~= idx_range(k, arg_vals(a).len()));
        },
    }
}

/// A renderable condition assigns exactly the next run of placeholder
/// numbers.
pub proof fn lemma_cond_indices_sequential(c: CondView, k: nat)
    requires
        crate::sql_dialect::model::cond_ok(c),
    ensures
        cond_indices(c, k) == idx_range(k, cond_vals(c).len()),
    decreases c,
{
    match c {
        CondView::Single(s) => {
            lemma_arg_indices_sequential(s.left, k);
            lemma_arg_indices_sequential(s.right, k + arg_vals(s.left).len());
            lemma_idx_range_concat(k, arg_vals(s.left).len(), arg_vals(s.right).len());
        },
        CondView::Group(g) => {
            lemma_conds_indices_sequential(g.conditions, k);
        },
    }
}

/// A renderable condition list assigns exactly the next run of placeholder
/// numbers.
pub proof fn lemma_conds_indices_sequential(cs: Seq<CondView>, k: nat)
    requires
        conds_ok(cs),
    ensures
        conds_indices(cs, k) == idx_range(k, conds_vals(cs).len()),
    decreases cs,
{
    if cs.len() == 0 {
        assert(conds_indices(cs, k) =~= idx_range(k, conds_vals(cs).len()));
    } else {
        lemma_cond_indices_sequential(cs[0], k);
        lemma_conds_indices_sequential(cs.skip(1), k + cond_vals(cs[0]).len());
        lemma_idx_range_concat(k, cond_vals(cs[0]).len(), conds_vals(cs.skip(1)).len());
    }
}

/// A renderable projection assigns exactly the next run of placeholder
/// numbers.
pub proof fn lemma_columns_indices_sequential(cs: Seq<ColumnView>, k: nat)
    requires
        crate::sql_dialect::model::columns_ok(cs),
    ensures
        columns_indices(cs, k) == idx_range(k, columns_vals(cs).len()),
    decreases cs,
{
    if cs.len() == 0 {
        assert(columns_indices(cs, k) =~= idx_range(k, columns_vals(cs).len()));
    } else {
        lemma_arg_indices_sequential(cs[0].arg, k);
        lemma_columns_indices_sequential(cs.skip(1), k + column_vals(cs[0]).len());
        lemma_idx_range_concat(k, column_vals(cs[0]).len(), columns_vals(cs.skip(1)).len());
    }
}

/// A renderable join list assigns exactly the next run of placeholder
/// numbers.
pub proof fn lemma_joins_indices_sequential(js: Seq<JoinView>, k: nat)
    requires
        crate::sql_dialect::model::joins_ok(js),
    ensures
        joins_indices(js, k) == idx_range(k, joins_vals(js).len()),
    decreases js,
{
    if js.len() == 0 {
        assert(joins_indices(js, k) =~= idx_range(k, joins_vals(js).len()));
    } else {
        lemma_arg_indices_sequential(js[0].left, k);
        lemma_arg_indices_sequential(js[0].right, k + arg_vals(js[0].left).len());
        lemma_joins_indices_sequential(js.skip(1), k + join_vals(js[0]).len());
        lemma_idx_range_concat(k, arg_vals(js[0].left).len(), arg_vals(js[0].right).len());
        lemma_idx_range_concat(k, join_vals(js[0]).len(), joins_vals(js.skip(1)).len());
    }
}

/// A renderable `order by` list assigns exactly the next run of placeholder
/// numbers.
pub proof fn lemma_orderings_indices_sequential(os: Seq<OrderingView>, k: nat)
    requires
        crate::sql_dialect::model::orderings_ok(os),
    ensures
        orderings_indices(os, k) == idx_range(k, orderings_vals(os).len()),
    decreases os,
{
    if os.len() == 0 {
        assert(orderings_indices(os, k) =~= idx_range(k, orderings_vals(os).len()));
    } else {
        lemma_arg_indices_sequential(os[0].left, k);
        lemma_arg_indices_sequential(os[0].right, k + arg_vals(os[0].left).len());
        lemma_orderings_indices_sequential(os.skip(1), k + ordering_vals(os[0]).len());
        lemma_idx_range_concat(k, arg_vals(os[0].left).len(), arg_vals(os[0].right).len());
        lemma_idx_range_concat(k, ordering_vals(os[0]).len(), orderings_vals(os.skip(1)).len());
    }
}

/// Placeholder numbering is strictly sequential across a whole renderable
/// select statement: with `k` values already bound by an enclosing
/// statement, the numbers assigned — through every nested sub-query and
/// raw fragment — are exactly `k + 1 .. k + N`, in emission order, where
/// `N` is the number of values the statement binds. At the top level
/// (`k == 0`) they are `1 .. N` with no gaps and no reuse.
pub proof fn lemma_select_indices_sequential(s: SelectView, k: nat)
    requires
        select_ok(s),
    ensures
        select_indices(s, k) == idx_range(k, select_vals(s).len()),
    decreases s,
{
    let pv = projection_vals(s.columns);
    let tv = (match s.table {
        Some(t) => arg_vals(t),
        None => Seq::<ValueView>::empty(),
    });
    let jv = (match s.joins {
        Some(js) => joins_vals(js),
        None => Seq::<ValueView>::empty(),
    });
    let cv = conds_vals(s.where_);
    let ov = (match s.ordering {
        Some(os) => orderings_vals(os),
        None => Seq::<ValueView>::empty(),
    });
    match s.columns {
        Some(cs) => lemma_columns_indices_sequential(cs, k),
        None => {},
    }
    match s.table {
        Some(t) => lemma_arg_indices_sequential(t, k + pv.len()),
        None => {},
    }
    match s.joins {
        Some(js) => lemma_joins_indices_sequential(js, k + pv.len() + tv.len()),
        None => {},
    }
    lemma_conds_indices_sequential(s.where_, k + pv.len() + tv.len() + jv.len());
    match s.ordering {
        Some(os) => lemma_orderings_indices_sequential(
            os,
            k + pv.len() + tv.len() + jv.len() + cv.len(),
        ),
        None => {},
    }
    lemma_idx_range_concat(k, pv.len(), tv.len());
    lemma_idx_range_concat(k, pv.len() + tv.len(), jv.len());
    lemma_idx_range_concat(k, pv.len() + tv.len() + jv.len(), cv.len());
    lemma_idx_range_concat(k, pv.len() + tv.len() + jv.len() + cv.len(), ov.len());
    assert(select_indices(s, k) =~= idx_range(k, select_vals(s).len()));
}

} // verus!

