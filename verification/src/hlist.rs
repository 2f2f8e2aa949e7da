//! Type-level heterogeneous lists with `Reflect` implementations.

use crate::reflection::{Reflect, RuntimeValue, Shape};
use std::marker::PhantomData;
use vstd::prelude::*;

verus! {

/// The empty heterogeneous list.
pub struct HNil;

/// A cons cell: `HCons<H, T>` prepends head `H` to tail `T`.
pub struct HCons<H, T>(pub PhantomData<(H, T)>);

/// Types that represent type-level heterogeneous lists.
pub trait HList {
    /// The number of elements of this list.
    spec fn spec_len() -> nat;

    /// The number of elements in this type-level list.
    fn len() -> (r: usize)
        requires
            Self::spec_len() <= usize::MAX,
        ensures
            r == Self::spec_len(),
    ;

    /// Whether this type-level list is empty.
    fn is_empty() -> (r: bool)
        requires
            Self::spec_len() <= usize::MAX,
        ensures
            r == (Self::spec_len() == 0),
    {
        Self::len() == 0
    }
}

impl HList for HNil {
    open spec fn spec_len() -> nat {
        0
    }

    fn len() -> (r: usize) {
        0
    }
}

impl<H, T: HList> HList for HCons<H, T> {
    open spec fn spec_len() -> nat {
        T::spec_len() + 1
    }

    fn len() -> (r: usize) {
        1 + T::len()
    }
}

impl Reflect for HNil {
    type Value = Vec<RuntimeValue>;

    open spec fn reflected() -> Seq<Shape> {
        Seq::empty()
    }

    open spec fn reflectable() -> bool {
        true
    }

    fn reflect() -> (v: Vec<RuntimeValue>) {
        let v: Vec<RuntimeValue> = Vec::new();
        assert(v.deep_view() =~= Seq::<Shape>::empty());
        v
    }
}

impl<H, T> Reflect for HCons<H, T> where
    H: Reflect<Value = RuntimeValue>,
    T: Reflect<Value = Vec<RuntimeValue>>,
 {
    type Value = Vec<RuntimeValue>;

    open spec fn reflected() -> Seq<Shape> {
        seq![H::reflected()] + T::reflected()
    }

    open spec fn reflectable() -> bool {
        H::reflectable() && T::reflectable()
    }

    fn reflect() -> (v: Vec<RuntimeValue>) {
        let mut list = vec![H::reflect()];
        let mut rest = T::reflect();
        list.append(&mut rest);
        assert(list.deep_view() =~= seq![H::reflected()] + T::reflected());
        list
    }
}

/// A type-level list that reflects to a list of runtime values.
pub trait ReflectedList: HList + Reflect<Value = Vec<RuntimeValue>> {
    /// The reflection of a list has one value per element: its length is
    /// the list's `len()`.
    proof fn lemma_len_reflected()
        ensures
            Self::reflected().len() == Self::spec_len(),
    ;
}

impl ReflectedList for HNil {
    proof fn lemma_len_reflected() {
    }
}

impl<H: Reflect<Value = RuntimeValue>, T: ReflectedList> ReflectedList for HCons<H, T> {
    proof fn lemma_len_reflected() {
        T::lemma_len_reflected();
    }
}

} // verus!
