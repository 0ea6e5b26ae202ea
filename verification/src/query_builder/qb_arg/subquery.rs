use vstd::prelude::*;

use crate::query_builder::query::select::SelectQuery;

verus! {

/// A select statement used as an argument. It renders parenthesized and its
/// internal placeholders continue the enclosing statement's numbering.
#[derive(Debug)]
pub struct SubQuery(pub Box<SelectQuery>);

} // verus!
