use vstd::prelude::*;

use crate::error::Error;
use crate::query_builder::qb_arg::{Arg, ArgValue, ArgView, ArgValueView, TryIntoArg, arg_view};
use crate::query_builder::value::{Value, ValueView};

verus! {

/// How a condition links to its preceding sibling. The first condition of a
/// list never emits its connective.
#[derive(Debug, Clone, Copy, PartialEq, Eq, Structural)]
pub enum ConditionOp {
    And,
    Or,
}

/// One predicate: `left middle right`, with its connective.
#[derive(Debug)]
pub struct SingleWhereCondition {
    pub op: ConditionOp,
    pub left: Arg,
    pub middle: String,
    pub right: Arg,
}

/// A parenthesized group of conditions, with its connective.
#[derive(Debug)]
pub struct GroupedWhereCondition {
    pub op: ConditionOp,
    pub conditions: Vec<WhereCondition>,
}

/// A node of the condition tree.
#[derive(Debug)]
pub enum WhereCondition {
    Group(GroupedWhereCondition),
    Single(SingleWhereCondition),
}

/// The mathematical shape of a single predicate.
#[verifier::ext_equal]
pub struct SingleCondView {
    pub op: ConditionOp,
    pub left: ArgView,
    pub middle: Seq<char>,
    pub right: ArgView,
}

/// The mathematical shape of a condition group.
#[verifier::ext_equal]
pub struct GroupCondView {
    pub op: ConditionOp,
    pub conditions: Seq<CondView>,
}

/// The mathematical shape of a condition tree node.
#[verifier::ext_equal]
pub enum CondView {
    Group(GroupCondView),
    Single(SingleCondView),
}

/// The view of one condition, recursing into groups.
pub open spec fn cond_view(c: WhereCondition) -> CondView
    decreases c,
{
    match c {
        WhereCondition::Single(s) => CondView::Single(
            SingleCondView {
                op: s.op,
                left: arg_view(s.left),
                middle: s.middle@,
                right: arg_view(s.right),
            },
        ),
        WhereCondition::Group(g) => CondView::Group(
            GroupCondView { op: g.op, conditions: conds_view(g.conditions@) },
        ),
    }
}

/// The view of a condition list, in order.
pub open spec fn conds_view(cs: Seq<WhereCondition>) -> Seq<CondView>
    decreases cs,
{
    if cs.len() == 0 {
        Seq::empty()
    } else {
        conds_view(cs.drop_last()).push(cond_view(cs.last()))
    }
}

/// A condition list's view has the same length and the condition views in
/// place.
pub proof fn lemma_conds_view_index(cs: Seq<WhereCondition>)
    ensures
        conds_view(cs).len() == cs.len(),
        forall|i: int| 0 <= i < cs.len() ==> conds_view(cs)[i] == cond_view(cs[i]),
    decreases cs.len(),
{
    if cs.len() > 0 {
        lemma_conds_view_index(cs.drop_last());
        assert forall|i: int| 0 <= i < cs.len() implies conds_view(cs)[i] == cond_view(cs[i]) by {
            if i < cs.len() - 1 {
                assert(cs.drop_last()[i] == cs[i]);
            }
        }
    }
}

impl View for WhereCondition {
    type V = CondView;

    open spec fn view(&self) -> CondView {
        cond_view(*self)
    }
}

impl WhereCondition {
    /// A copy of this condition, recursing into groups.
    pub fn clone(&self) -> (res: Self)
        ensures
            cond_view(res) == cond_view(*self),
        decreases *self,
    {
        match self {
            WhereCondition::Single(s) => WhereCondition::Single(
                SingleWhereCondition {
                    op: s.op,
                    left: s.left.clone(),
                    middle: s.middle.clone(),
                    right: s.right.clone(),
                },
            ),
            WhereCondition::Group(g) => WhereCondition::Group(
                GroupedWhereCondition { op: g.op, conditions: clone_conds(&g.conditions) },
            ),
        }
    }
}

/// Clones a condition list, preserving every condition's shape.
pub fn clone_conds(cs: &Vec<WhereCondition>) -> (r: Vec<WhereCondition>)
    ensures
        conds_view(r@) == conds_view(cs@),
    decreases *cs,
{
    let mut out: Vec<WhereCondition> = Vec::new();
    let n = cs.len();
    let mut i: usize = 0;
    while i < n
        invariant
            0 <= i <= n,
            n == cs@.len(),
            out@.len() == i,
            forall|j: int| 0 <= j < i ==> cond_view(out@[j]) == cond_view(cs@[j]),
        decreases n - i,
    {
        let c = cs[i].clone();
        proof {
            assert(cond_view(c) == cond_view(cs@[i as int]));
        }
        out.push(c);
        i += 1;
    }
    proof {
        lemma_conds_view_index(out@);
        lemma_conds_view_index(cs@);
        assert(conds_view(out@) =~= conds_view(cs@));
    }
    out
}

/// The same condition with its connective replaced.
pub open spec fn cond_with_op(c: CondView, op: ConditionOp) -> CondView {
    match c {
        CondView::Single(s) => CondView::Single(SingleCondView { op, ..s }),
        CondView::Group(g) => CondView::Group(GroupCondView { op, ..g }),
    }
}

impl WhereCondition {
    /// Replaces the connective of this condition.
    pub fn set_op(&mut self, op: ConditionOp)
        ensures
            final(self)@ == cond_with_op(old(self)@, op),
    {
        match self {
            WhereCondition::Group(cond) => cond.op = op,
            WhereCondition::Single(cond) => cond.op = op,
        }
    }
}

impl GroupedWhereCondition {
    /// An empty group with the given connective.
    pub fn new(op: ConditionOp) -> (g: Self)
        ensures
            g.op == op,
            g.conditions@.len() == 0,
    {
        GroupedWhereCondition { op, conditions: Vec::new() }
    }
}

/// Conversion of predicate shorthands into a condition. A 2-tuple
/// `(left, right)` defaults the operator to `=`; a 3-tuple spells it out.
/// The conversion itself cannot fail; the `Result` mirrors the fluent API's
/// error protocol.
pub trait TryIntoCondition: Sized {
    /// The condition this shorthand converts to; its connective is `And`
    /// until the caller replaces it.
    spec fn cond_spec(&self) -> CondView;

    /// Builds the condition.
    fn try_into_condition(self) -> (r: Result<WhereCondition, Error>)
        ensures
            r matches Ok(c) && c@ == self.cond_spec(),
    ;
}

impl<T1: TryIntoArg, T2: TryIntoArg> TryIntoCondition for (T1, T2) {
    open spec fn cond_spec(&self) -> CondView {
        CondView::Single(
            SingleCondView {
                op: ConditionOp::And,
                left: self.0.arg_spec(),
                middle: "="@,
                right: self.1.arg_spec(),
            },
        )
    }

    fn try_into_condition(self) -> (r: Result<WhereCondition, Error>) {
        let left = match self.0.try_into_arg() {
            Ok(a) => a,
            Err(_) => { proof { assert(false); } unreached() },
        };
        let right = match self.1.try_into_arg() {
            Ok(a) => a,
            Err(_) => { proof { assert(false); } unreached() },
        };
        Ok(WhereCondition::Single(
            SingleWhereCondition {
                op: ConditionOp::And,
                left,
                middle: "=".to_owned(),
                right,
            },
        ))
    }
}

impl<T1: TryIntoArg, T2: TryIntoArg> TryIntoCondition for (T1, &str, T2) {
    open spec fn cond_spec(&self) -> CondView {
        CondView::Single(
            SingleCondView {
                op: ConditionOp::And,
                left: self.0.arg_spec(),
                middle: self.1@,
                right: self.2.arg_spec(),
            },
        )
    }

    fn try_into_condition(self) -> (r: Result<WhereCondition, Error>) {
        let left = match self.0.try_into_arg() {
            Ok(a) => a,
            Err(_) => { proof { assert(false); } unreached() },
        };
        let right = match self.2.try_into_arg() {
            Ok(a) => a,
            Err(_) => { proof { assert(false); } unreached() },
        };
        Ok(WhereCondition::Single(
            SingleWhereCondition {
                op: ConditionOp::And,
                left,
                middle: self.1.to_owned(),
                right,
            },
        ))
    }
}

/// A sink for finished conditions: each statement kind that supports a
/// `where` clause implements this.
pub trait PushCondition {
    /// The condition list this sink has accumulated.
    spec fn conds_spec(&self) -> Seq<CondView>;

    /// Everything of the sink except its condition list is unchanged.
    spec fn same_but_conds(&self, other: &Self) -> bool;

    /// Appends one finished condition.
    fn push_cond(&mut self, cond: WhereCondition)
        ensures
            final(self).conds_spec() == old(self).conds_spec().push(cond@),
            final(self).same_but_conds(old(self)),
    ;
}

/// The condition a finished group turns into when appended to the tree.
pub open spec fn grouped_cond_spec(g: GroupedWhereCondition) -> CondView {
    CondView::Group(GroupCondView { op: g.op, conditions: conds_view(g.conditions@) })
}

/// The fluent condition-building interface, shared by every statement kind
/// that supports a `where` clause and by condition groups themselves.
pub trait Conditions: PushCondition + Sized {
    /// Appends the condition, linked by `and`.
    fn and_where<C: TryIntoCondition>(&mut self, condition: C) -> (ret: &mut Self)
        ensures
            ret.conds_spec() == old(self).conds_spec().push(condition.cond_spec()),
            ret.same_but_conds(old(self)),
            *final(self) == *final(ret),
    {
        let cond = match condition.try_into_condition() {
            Ok(c) => c,
            Err(_) => { proof { assert(false); } unreached() },
        };
        self.push_cond(cond);
        self
    }

    /// Appends the condition, linked by `or`.
    fn or_where<C: TryIntoCondition>(&mut self, condition: C) -> (ret: &mut Self)
        ensures
            ret.conds_spec() == old(self).conds_spec().push(
                cond_with_op(condition.cond_spec(), ConditionOp::Or),
            ),
            ret.same_but_conds(old(self)),
            *final(self) == *final(ret),
    {
        let mut cond = match condition.try_into_condition() {
            Ok(c) => c,
            Err(_) => { proof { assert(false); } unreached() },
        };
        cond.set_op(ConditionOp::Or);
        self.push_cond(cond);
        self
    }

    /// Opens an empty group, hands it to the caller's logic, and appends the
    /// populated group as one condition linked by `and`.
    fn and_where_grouped<F: FnOnce(GroupedWhereCondition) -> GroupedWhereCondition>(
        &mut self,
        f: F,
    ) -> (ret: &mut Self)
        requires
            forall|g: GroupedWhereCondition|
                g.op == ConditionOp::And && g.conditions@.len() == 0 ==> call_requires(f, (g,)),
        ensures
            exists|g0: GroupedWhereCondition, g: GroupedWhereCondition|
                g0.op == ConditionOp::And && g0.conditions@.len() == 0
                && #[trigger] call_ensures(f, (g0,), g)
                && ret.conds_spec() == old(self).conds_spec().push(grouped_cond_spec(g)),
            ret.same_but_conds(old(self)),
            *final(self) == *final(ret),
    {
        let g_in = GroupedWhereCondition::new(ConditionOp::And);
        let ghost g0 = g_in;
        let g_out = f(g_in);
        let ghost g1 = g_out;
        self.push_cond(WhereCondition::Group(g_out));
        proof {
            assert(call_ensures(f, (g0,), g1));
        }
        self
    }

    /// Opens an empty group, hands it to the caller's logic, and appends the
    /// populated group as one condition linked by `or`.
    fn or_where_grouped<F: FnOnce(GroupedWhereCondition) -> GroupedWhereCondition>(
        &mut self,
        f: F,
    ) -> (ret: &mut Self)
        requires
            forall|g: GroupedWhereCondition|
                g.op == ConditionOp::Or && g.conditions@.len() == 0 ==> call_requires(f, (g,)),
        ensures
            exists|g0: GroupedWhereCondition, g: GroupedWhereCondition|
                g0.op == ConditionOp::Or && g0.conditions@.len() == 0
                && #[trigger] call_ensures(f, (g0,), g)
                && ret.conds_spec() == old(self).conds_spec().push(grouped_cond_spec(g)),
            ret.same_but_conds(old(self)),
            *final(self) == *final(ret),
    {
        let g_in = GroupedWhereCondition::new(ConditionOp::Or);
        let ghost g0 = g_in;
        let g_out = f(g_in);
        let ghost g1 = g_out;
        self.push_cond(WhereCondition::Group(g_out));
        proof {
            assert(call_ensures(f, (g0,), g1));
        }
        self
    }

    /// Appends `left is null`, linked by `and`.
    fn and_where_null<L: TryIntoArg>(&mut self, left: L) -> (ret: &mut Self)
        ensures
            ret.conds_spec() == old(self).conds_spec().push(
                null_cond_spec(ConditionOp::And, left.arg_spec(), "is"@),
            ),
            ret.same_but_conds(old(self)),
            *final(self) == *final(ret),
    {
        let left = match left.try_into_arg() {
            Ok(a) => a,
            Err(_) => { proof { assert(false); } unreached() },
        };
        self.push_cond(WhereCondition::Single(
            SingleWhereCondition {
                op: ConditionOp::And,
                left,
                middle: "is".to_owned(),
                right: Arg::Value(ArgValue::Value(Value::Null)),
            },
        ));
        self
    }

    /// Appends `left is null`, linked by `or`.
    fn or_where_null<L: TryIntoArg>(&mut self, left: L) -> (ret: &mut Self)
        ensures
            ret.conds_spec() == old(self).conds_spec().push(
                null_cond_spec(ConditionOp::Or, left.arg_spec(), "is"@),
            ),
            ret.same_but_conds(old(self)),
            *final(self) == *final(ret),
    {
        let left = match left.try_into_arg() {
            Ok(a) => a,
            Err(_) => { proof { assert(false); } unreached() },
        };
        self.push_cond(WhereCondition::Single(
            SingleWhereCondition {
                op: ConditionOp::Or,
                left,
                middle: "is".to_owned(),
                right: Arg::Value(ArgValue::Value(Value::Null)),
            },
        ));
        self
    }

    /// Appends `left is not null`, linked by `and`.
    fn and_where_not_null<L: TryIntoArg>(&mut self, left: L) -> (ret: &mut Self)
        ensures
            ret.conds_spec() == old(self).conds_spec().push(
                null_cond_spec(ConditionOp::And, left.arg_spec(), "is not"@),
            ),
            ret.same_but_conds(old(self)),
            *final(self) == *final(ret),
    {
        let left = match left.try_into_arg() {
            Ok(a) => a,
            Err(_) => { proof { assert(false); } unreached() },
        };
        self.push_cond(WhereCondition::Single(
            SingleWhereCondition {
                op: ConditionOp::And,
                left,
                middle: "is not".to_owned(),
                right: Arg::Value(ArgValue::Value(Value::Null)),
            },
        ));
        self
    }

    /// Appends `left is not null`, linked by `or`.
    fn or_where_not_null<L: TryIntoArg>(&mut self, left: L) -> (ret: &mut Self)
        ensures
            ret.conds_spec() == old(self).conds_spec().push(
                null_cond_spec(ConditionOp::Or, left.arg_spec(), "is not"@),
            ),
            ret.same_but_conds(old(self)),
            *final(self) == *final(ret),
    {
        let left = match left.try_into_arg() {
            Ok(a) => a,
            Err(_) => { proof { assert(false); } unreached() },
        };
        self.push_cond(WhereCondition::Single(
            SingleWhereCondition {
                op: ConditionOp::Or,
                left,
                middle: "is not".to_owned(),
                right: Arg::Value(ArgValue::Value(Value::Null)),
            },
        ));
        self
    }
}

/// The view of a null-test predicate: `left middle null`.
pub open spec fn null_cond_spec(op: ConditionOp, left: ArgView, middle: Seq<char>) -> CondView {
    CondView::Single(
        SingleCondView {
            op,
            left,
            middle,
            right: ArgView::Value(ArgValueView::Value(ValueView::Null)),
        },
    )
}

impl PushCondition for GroupedWhereCondition {
    open spec fn conds_spec(&self) -> Seq<CondView> {
        conds_view(self.conditions@)
    }

    open spec fn same_but_conds(&self, other: &Self) -> bool {
        self.op == other.op
    }

    fn push_cond(&mut self, cond: WhereCondition) {
        self.conditions.push(cond);
        proof {
            assert(self.conditions@.drop_last() =~= old(self).conditions@);
        }
    }
}

impl Conditions for GroupedWhereCondition {
}

} // verus!
