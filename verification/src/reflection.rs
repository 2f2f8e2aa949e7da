//! The `Reflect` trait, the `RuntimeValue` vocabulary, and scoped
//! reification through branded tokens.

use std::marker::PhantomData;
use vstd::prelude::*;

verus! {

/// Runtime representation of type-level values.
#[derive(Debug, PartialEq)]
pub enum RuntimeValue {
    /// A natural number.
    Nat(u64),
    /// A boolean.
    Bool(bool),
    /// A list of runtime values.
    List(Vec<RuntimeValue>),
    /// The unit value.
    Unit,
}

/// The mathematical value a `RuntimeValue` denotes: the same tree, with
/// lists as sequences.
pub enum Shape {
    Nat(u64),
    Bool(bool),
    List(Seq<Shape>),
    Unit,
}

/// The shape denoted by a runtime value.
pub open spec fn shape_of(v: RuntimeValue) -> Shape
    decreases v,
{
    match v {
        RuntimeValue::Nat(n) => Shape::Nat(n),
        RuntimeValue::Bool(b) => Shape::Bool(b),
        RuntimeValue::List(xs) => Shape::List(
            Seq::new(
                xs@.len(),
                |i: int|
                    if 0 <= i < xs@.len() {
                        shape_of(xs@[i])
                    } else {
                        Shape::Unit
                    },
            ),
        ),
        RuntimeValue::Unit => Shape::Unit,
    }
}

impl DeepView for RuntimeValue {
    type V = Shape;

    open spec fn deep_view(&self) -> Shape {
        shape_of(*self)
    }
}

/// A list value denotes the list of the shapes of its elements.
pub proof fn lemma_list_shape(xs: Vec<RuntimeValue>)
    ensures
        shape_of(RuntimeValue::List(xs)) == Shape::List(xs.deep_view()),
{
    assert(shape_of(RuntimeValue::List(xs))->List_0 =~= xs.deep_view());
}

fn clone_value(v: &RuntimeValue) -> (r: RuntimeValue)
    ensures
        r.deep_view() == v.deep_view(),
    decreases v,
{
    match v {
        RuntimeValue::Nat(n) => RuntimeValue::Nat(*n),
        RuntimeValue::Bool(b) => RuntimeValue::Bool(*b),
        RuntimeValue::Unit => RuntimeValue::Unit,
        RuntimeValue::List(xs) => {
            let mut out: Vec<RuntimeValue> = Vec::new();
            let mut i: usize = 0;
            while i < xs.len()
                invariant
                    *v == RuntimeValue::List(*xs),
                    i <= xs@.len(),
                    out@.len() == i,
                    forall|j: int| 0 <= j < i ==> #[trigger] out@[j].deep_view() == xs@[j].deep_view(),
                decreases xs@.len() - i,
            {
                proof {
                    assert(decreases_to!(*v => v->List_0));
                    assert(decreases_to!(v->List_0 => v->List_0@));
                    assert(decreases_to!(v->List_0@ => v->List_0@[i as int]));
                }
                let c = clone_value(&xs[i]);
                out.push(c);
                i = i + 1;
            }
            proof {
                lemma_list_shape(*xs);
                lemma_list_shape(out);
                assert(out.deep_view() =~= xs.deep_view());
            }
            RuntimeValue::List(out)
        }
    }
}

impl Clone for RuntimeValue {
    /// A clone denotes the same shape as the value it was taken from.
    fn clone(&self) -> (r: Self)
        ensures
            r.deep_view() == self.deep_view(),
    {
        clone_value(self)
    }
}

/// Converts a type-level value into a runtime value.
///
/// `reflected()` is the value a type carries; `reflect()` produces a runtime
/// value that denotes it.
pub trait Reflect {
    /// The runtime representation of this type-level value.
    type Value: DeepView;

    /// The value this type carries; unspecified unless an implementation
    /// says what it is.
    open spec fn reflected() -> <Self::Value as DeepView>::V {
        arbitrary()
    }

    /// Whether the value fits the runtime representation (a natural above
    /// `u64::MAX` does not); always, unless an implementation says otherwise.
    open spec fn reflectable() -> bool {
        true
    }

    /// Produce the runtime value corresponding to this type-level value.
    fn reflect() -> (v: Self::Value)
        requires
            Self::reflectable(),
        ensures
            v.deep_view() == Self::reflected(),
    ;
}

/// A branded token carrying a reified value. The lifetime `'brand` is
/// invariant, so a token cannot leave the callback that received it.
pub struct Reified<'brand, T: ?Sized> {
    value: &'brand T,
    brand: PhantomData<&'brand mut &'brand ()>,
}

impl<'brand, T: ?Sized> Reified<'brand, T> {
    /// The value this token carries.
    pub closed spec fn value(&self) -> &'brand T {
        self.value
    }

    /// Reflect the reified value back to a runtime reference.
    pub fn reflect(&self) -> (r: &T)
        ensures
            r == self.value(),
    {
        self.value
    }
}

/// Reify a runtime value into a scoped context: `f` receives a token whose
/// `reflect()` gives back `val`, and its result is returned.
pub fn reify<T: ?Sized, F, R>(val: &T, f: F) -> (r: R) where
    F: for<'brand> FnOnce(Reified<'brand, T>) -> R,

    requires
        forall|tok: Reified<T>| tok.value() == val ==> #[trigger] f.requires((tok,)),
    ensures
        exists|tok: Reified<T>| tok.value() == val && #[trigger] f.ensures((tok,), r),
{
    let tok = Reified { value: val, brand: PhantomData };
    assert(tok.value() == val);
    f(tok)
}

} // verus!
