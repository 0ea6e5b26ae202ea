use vstd::prelude::*;

verus! {

/// The ways a statement can be rejected at render time.
///
/// Rendering never emits malformed SQL for a malformed statement: the shape
/// mismatches below are reported as recoverable errors instead.
#[derive(Debug, Clone, Copy, PartialEq, Eq, Structural)]
pub enum ErrorKind {
    /// A raw SQL fragment whose `?` marker count differs from the number of
    /// values supplied for it.
    RawBindingsMismatch,
    /// An insert whose value count is not a positive multiple of its declared
    /// column count (or that has values but no declared columns).
    InsertShapeMismatch,
    /// An insert fed from a sub-query: no dialect renders it, and literal
    /// rows cannot be added to it.
    InsertFromSubQueryUnsupported,
}

/// An error returned by a render call, carrying the kind of rejection.
#[derive(Debug, Clone, Copy, PartialEq, Eq, Structural)]
pub struct Error {
    pub kind: ErrorKind,
}

impl Error {
    pub fn new(kind: ErrorKind) -> (e: Error)
        ensures
            e.kind == kind,
    {
        Error { kind }
    }

    pub fn kind(&self) -> (k: ErrorKind)
        ensures
            k == self.kind,
    {
        self.kind
    }
}

} // verus!
