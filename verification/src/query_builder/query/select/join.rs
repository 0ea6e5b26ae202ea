use vstd::prelude::*;

use crate::query_builder::qb_arg::{Arg, ArgView, arg_view};

verus! {

/// One `join` clause: optional join kind, joined relation, and the `on`
/// predicate `left op right`.
#[derive(Debug)]
pub struct RegularJoin {
    pub join_type: Option<String>,
    pub table: String,
    pub left: Arg,
    pub op: String,
    pub right: Arg,
}

/// A join of any supported shape.
#[derive(Debug)]
pub enum Join {
    Regular(RegularJoin),
}

/// The mathematical shape of a join clause.
#[verifier::ext_equal]
pub struct JoinView {
    pub join_type: Option<Seq<char>>,
    pub table: Seq<char>,
    pub left: ArgView,
    pub op: Seq<char>,
    pub right: ArgView,
}

/// The view of one join clause.
pub open spec fn join_view(j: Join) -> JoinView
    decreases j,
{
    match j {
        Join::Regular(r) => JoinView {
            join_type: match r.join_type {
                Some(t) => Some(t@),
                None => None,
            },
            table: r.table@,
            left: arg_view(r.left),
            op: r.op@,
            right: arg_view(r.right),
        },
    }
}

/// The view of a join list, in order.
pub open spec fn joins_view(js: Seq<Join>) -> Seq<JoinView>
    decreases js,
{
    if js.len() == 0 {
        Seq::empty()
    } else {
        joins_view(js.drop_last()).push(join_view(js.last()))
    }
}

/// Appending one join to a join list appends its view.
pub proof fn lemma_joins_view_push(js: Seq<Join>, j: Join)
    ensures
        joins_view(js.push(j)) == joins_view(js).push(join_view(j)),
{
    assert(js.push(j).drop_last() =~= js);
    assert(js.push(j).last() == j);
}

/// A join list's view has the same length and the join views in place.
pub proof fn lemma_joins_view_index(js: Seq<Join>)
    ensures
        joins_view(js).len() == js.len(),
        forall|i: int| 0 <= i < js.len() ==> joins_view(js)[i] == join_view(js[i]),
    decreases js.len(),
{
    if js.len() > 0 {
        lemma_joins_view_index(js.drop_last());
        assert forall|i: int| 0 <= i < js.len() implies joins_view(js)[i] == join_view(js[i]) by {
            if i < js.len() - 1 {
                assert(js.drop_last()[i] == js[i]);
            }
        }
    }
}

impl Join {
    /// A copy of this join clause.
    pub fn clone(&self) -> (res: Self)
        ensures
            join_view(res) == join_view(*self),
        decreases *self,
    {
        match self {
            Join::Regular(rj) => Join::Regular(
                RegularJoin {
                    join_type: match &rj.join_type {
                        Some(t) => Some(t.clone()),
                        None => None,
                    },
                    table: rj.table.clone(),
                    left: rj.left.clone(),
                    op: rj.op.clone(),
                    right: rj.right.clone(),
                },
            ),
        }
    }
}

/// Clones a join list, preserving every clause's shape.
pub fn clone_joins(js: &Vec<Join>) -> (r: Vec<Join>)
    ensures
        joins_view(r@) == joins_view(js@),
    decreases *js,
{
    let mut out: Vec<Join> = Vec::new();
    let n = js.len();
    let mut i: usize = 0;
    while i < n
        invariant
            0 <= i <= n,
            n == js@.len(),
            out@.len() == i,
            forall|j: int| 0 <= j < i ==> join_view(out@[j]) == join_view(js@[j]),
        decreases n - i,
    {
        let j = js[i].clone();
        out.push(j);
        i += 1;
    }
    proof {
        lemma_joins_view_index(out@);
        lemma_joins_view_index(js@);
        assert(joins_view(out@) =~= joins_view(js@));
    }
    out
}

impl View for Join {
    type V = JoinView;

    open spec fn view(&self) -> JoinView {
        join_view(*self)
    }
}

} // verus!
