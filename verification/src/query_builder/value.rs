use vstd::prelude::*;

verus! {

/// The mathematical shape of a literal scalar: text is a sequence of
/// characters, the numeric kinds carry their machine value.
#[verifier::ext_equal]
pub enum ValueView {
    String(Seq<char>),
    Integer(i32),
    BigInt(i64),
    Boolean(bool),
    Null,
}

/// A literal scalar destined to become a bound parameter (or, for `Null`,
/// the inline keyword `null`).
#[derive(Debug, PartialEq)]
pub enum Value {
    String(String),
    Integer(i32),
    BigInt(i64),
    Boolean(bool),
    Null,
}

impl View for Value {
    type V = ValueView;

    open spec fn view(&self) -> ValueView {
        match self {
            Value::String(s) => ValueView::String(s@),
            Value::Integer(i) => ValueView::Integer(*i),
            Value::BigInt(i) => ValueView::BigInt(*i),
            Value::Boolean(b) => ValueView::Boolean(*b),
            Value::Null => ValueView::Null,
        }
    }
}

impl DeepView for Value {
    type V = ValueView;

    open spec fn deep_view(&self) -> ValueView {
        self.view()
    }
}

impl Clone for Value {
    fn clone(&self) -> (res: Self)
        ensures
            res@ == self@,
    {
        match self {
            Value::String(s) => Value::String(s.clone()),
            Value::Integer(i) => Value::Integer(*i),
            Value::BigInt(i) => Value::BigInt(*i),
            Value::Boolean(b) => Value::Boolean(*b),
            Value::Null => Value::Null,
        }
    }
}

/// Clones a value list, preserving every value's shape.
pub fn clone_values(vs: &Vec<Value>) -> (r: Vec<Value>)
    ensures
        r.deep_view() == vs.deep_view(),
{
    let mut out: Vec<Value> = Vec::new();
    let n = vs.len();
    let mut i: usize = 0;
    while i < n
        invariant
            0 <= i <= n,
            n == vs@.len(),
            out@.len() == i,
            forall|j: int| 0 <= j < i ==> out@[j]@ == vs@[j]@,
        decreases n - i,
    {
        let v = vs[i].clone();
        proof {
            assert(v@ == vs@[i as int]@);
        }
        out.push(v);
        i += 1;
    }
    proof {
        assert(out.deep_view() =~= vs.deep_view());
    }
    out
}

/// Conversion of plain scalars into [`Value`].
pub trait ValueExt {
    /// The value this scalar converts to.
    spec fn value_spec(&self) -> ValueView;

    /// Wraps the scalar in its [`Value`] kind.
    fn value(self) -> (v: Value)
        ensures
            v@ == self.value_spec(),
    ;
}

impl ValueExt for &str {
    open spec fn value_spec(&self) -> ValueView {
        ValueView::String(self@)
    }

    fn value(self) -> (v: Value) {
        Value::String(self.to_owned())
    }
}

impl ValueExt for String {
    open spec fn value_spec(&self) -> ValueView {
        ValueView::String(self@)
    }

    fn value(self) -> (v: Value) {
        Value::String(self)
    }
}

impl ValueExt for i32 {
    open spec fn value_spec(&self) -> ValueView {
        ValueView::Integer(*self)
    }

    fn value(self) -> (v: Value) {
        Value::Integer(self)
    }
}

impl ValueExt for i64 {
    open spec fn value_spec(&self) -> ValueView {
        ValueView::BigInt(*self)
    }

    fn value(self) -> (v: Value) {
        Value::BigInt(self)
    }
}

impl ValueExt for bool {
    open spec fn value_spec(&self) -> ValueView {
        ValueView::Boolean(*self)
    }

    fn value(self) -> (v: Value) {
        Value::Boolean(self)
    }
}

/// An absent optional value converts to `Null`; a present one to its
/// wrapped value.
impl<T: ValueExt> ValueExt for Option<T> {
    open spec fn value_spec(&self) -> ValueView {
        match self {
            Some(inner) => inner.value_spec(),
            None => ValueView::Null,
        }
    }

    fn value(self) -> (v: Value) {
        match self {
            Some(inner) => inner.value(),
            None => Value::Null,
        }
    }
}

} // verus!
