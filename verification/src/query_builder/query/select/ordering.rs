use vstd::prelude::*;

use crate::error::Error;
use crate::query_builder::qb_arg::{ArgView, SqlKeyword, TryIntoArg, arg_view};

verus! {

/// One `order by` item: the ordered argument, the direction argument, and an
/// optional explicit null ordering.
#[derive(Debug)]
pub struct Ordering {
    pub left: crate::query_builder::qb_arg::Arg,
    pub right: crate::query_builder::qb_arg::Arg,
    pub null_first: Option<bool>,
}

/// The mathematical shape of an `order by` item.
#[verifier::ext_equal]
pub struct OrderingView {
    pub left: ArgView,
    pub right: ArgView,
    pub null_first: Option<bool>,
}

/// The view of one `order by` item.
pub open spec fn ordering_view(o: Ordering) -> OrderingView
    decreases o,
{
    OrderingView { left: arg_view(o.left), right: arg_view(o.right), null_first: o.null_first }
}

/// The view of an `order by` list, in order.
pub open spec fn orderings_view(os: Seq<Ordering>) -> Seq<OrderingView>
    decreases os,
{
    if os.len() == 0 {
        Seq::empty()
    } else {
        orderings_view(os.drop_last()).push(ordering_view(os.last()))
    }
}

/// Appending one item to an `order by` list appends its view.
pub proof fn lemma_orderings_view_push(os: Seq<Ordering>, o: Ordering)
    ensures
        orderings_view(os.push(o)) == orderings_view(os).push(ordering_view(o)),
{
    assert(os.push(o).drop_last() =~= os);
    assert(os.push(o).last() == o);
}

/// An `order by` list's view has the same length and the item views in
/// place.
pub proof fn lemma_orderings_view_index(os: Seq<Ordering>)
    ensures
        orderings_view(os).len() == os.len(),
        forall|i: int| 0 <= i < os.len() ==> orderings_view(os)[i] == ordering_view(os[i]),
    decreases os.len(),
{
    if os.len() > 0 {
        lemma_orderings_view_index(os.drop_last());
        assert forall|i: int| 0 <= i < os.len() implies orderings_view(os)[i] == ordering_view(
            os[i],
        ) by {
            if i < os.len() - 1 {
                assert(os.drop_last()[i] == os[i]);
            }
        }
    }
}

impl Ordering {
    /// A copy of this `order by` item.
    pub fn clone(&self) -> (res: Self)
        ensures
            ordering_view(res) == ordering_view(*self),
        decreases *self,
    {
        Ordering { left: self.left.clone(), right: self.right.clone(), null_first: self.null_first }
    }
}

/// Clones an `order by` list, preserving every item's shape.
pub fn clone_orderings(os: &Vec<Ordering>) -> (r: Vec<Ordering>)
    ensures
        orderings_view(r@) == orderings_view(os@),
    decreases *os,
{
    let mut out: Vec<Ordering> = Vec::new();
    let n = os.len();
    let mut i: usize = 0;
    while i < n
        invariant
            0 <= i <= n,
            n == os@.len(),
            out@.len() == i,
            forall|j: int| 0 <= j < i ==> ordering_view(out@[j]) == ordering_view(os@[j]),
        decreases n - i,
    {
        let o = os[i].clone();
        out.push(o);
        i += 1;
    }
    proof {
        lemma_orderings_view_index(out@);
        lemma_orderings_view_index(os@);
        assert(orderings_view(out@) =~= orderings_view(os@));
    }
    out
}

impl View for Ordering {
    type V = OrderingView;

    open spec fn view(&self) -> OrderingView {
        ordering_view(*self)
    }
}

/// Conversion of ordering shorthands into an [`Ordering`]. A 2-tuple gives
/// no explicit null ordering; a trailing keyword selects `nulls first` or
/// `nulls last`. The conversion itself cannot fail; the `Result` mirrors the
/// fluent API's error protocol.
pub trait TryIntoOrdering: Sized {
    /// The `order by` item this shorthand converts to.
    spec fn ordering_spec(&self) -> OrderingView;

    /// Builds the `order by` item.
    fn try_into_ordering(self) -> (r: Result<Ordering, Error>)
        ensures
            r matches Ok(o) && o@ == self.ordering_spec(),
    ;
}

impl<T1: TryIntoArg, T2: TryIntoArg> TryIntoOrdering for (T1, T2) {
    open spec fn ordering_spec(&self) -> OrderingView {
        OrderingView { left: self.0.arg_spec(), right: self.1.arg_spec(), null_first: None }
    }

    fn try_into_ordering(self) -> (r: Result<Ordering, Error>) {
        let left = match self.0.try_into_arg() {
            Ok(a) => a,
            Err(_) => { proof { assert(false); } unreached() },
        };
        let right = match self.1.try_into_arg() {
            Ok(a) => a,
            Err(_) => { proof { assert(false); } unreached() },
        };
        Ok(Ordering { left, right, null_first: None })
    }
}

impl<T1: TryIntoArg, T2: TryIntoArg> TryIntoOrdering for (T1, T2, SqlKeyword) {
    open spec fn ordering_spec(&self) -> OrderingView {
        OrderingView {
            left: self.0.arg_spec(),
            right: self.1.arg_spec(),
            null_first: Some(self.2 == SqlKeyword::NullsFirst),
        }
    }

    fn try_into_ordering(self) -> (r: Result<Ordering, Error>) {
        let left = match self.0.try_into_arg() {
            Ok(a) => a,
            Err(_) => { proof { assert(false); } unreached() },
        };
        let right = match self.1.try_into_arg() {
            Ok(a) => a,
            Err(_) => { proof { assert(false); } unreached() },
        };
        let null_first = match self.2 {
            SqlKeyword::NullsFirst => true,
            _ => false,
        };
        Ok(Ordering { left, right, null_first: Some(null_first) })
    }
}

} // verus!
