use vstd::prelude::*;

use crate::query_builder::value::{Value, ValueView, clone_values};

verus! {

/// A caller-supplied SQL fragment, inserted verbatim except that each `?`
/// marker is replaced by a freshly numbered placeholder consuming one of the
/// attached values.
#[derive(Debug)]
pub struct Raw {
    pub sql: String,
    pub bindings: Option<Vec<Value>>,
}

/// The mathematical shape of a [`Raw`] fragment.
#[verifier::ext_equal]
pub struct RawView {
    pub sql: Seq<char>,
    pub bindings: Option<Seq<ValueView>>,
}

/// The view of a raw fragment.
pub open spec fn raw_view(r: Raw) -> RawView {
    RawView {
        sql: r.sql@,
        bindings: match r.bindings {
            Some(vs) => Some(vs.deep_view()),
            None => None,
        },
    }
}

impl View for Raw {
    type V = RawView;

    open spec fn view(&self) -> RawView {
        raw_view(*self)
    }
}

impl Raw {
    /// A copy of this fragment with the same text and values.
    pub fn clone(&self) -> (res: Self)
        ensures
            raw_view(res) == raw_view(*self),
    {
        let bindings = match &self.bindings {
            Some(bs) => Some(clone_values(bs)),
            None => None,
        };
        let res = Raw { sql: self.sql.clone(), bindings };
        proof {
            assert(raw_view(res) =~= raw_view(*self));
        }
        res
    }

    /// Attaches the values consumed by this fragment's `?` markers, one per
    /// marker in order.
    pub fn bindings(self, values: Vec<Value>) -> (r: Raw)
        ensures
            r@.sql == self@.sql,
            r@.bindings == Some(values.deep_view()),
    {
        Raw { sql: self.sql, bindings: Some(values) }
    }
}

/// Conversion of fragment text into [`Raw`].
pub trait RawExt {
    /// The text of the fragment.
    spec fn raw_spec(&self) -> Seq<char>;

    /// Wraps the text in a [`Raw`] fragment with no attached values.
    fn raw(self) -> (r: Raw)
        ensures
            r@.sql == self.raw_spec(),
            r@.bindings is None,
    ;
}

impl RawExt for &str {
    open spec fn raw_spec(&self) -> Seq<char> {
        self@
    }

    fn raw(self) -> (r: Raw) {
        Raw { sql: self.to_owned(), bindings: None }
    }
}

impl RawExt for String {
    open spec fn raw_spec(&self) -> Seq<char> {
        self@
    }

    fn raw(self) -> (r: Raw) {
        Raw { sql: self, bindings: None }
    }
}

} // verus!
