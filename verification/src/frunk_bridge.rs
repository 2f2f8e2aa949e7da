//! Reflecting the element types of a value-bearing `frunk` heterogeneous
//! list.
//!
//! `frunk::HCons<H, T>` stores an actual `H`, while this crate's
//! `hlist::HCons<H, T>` is purely type-level. `FrunkReflect` walks a
//! `frunk` list and reflects each element *type*; the stored values are
//! not read.

use crate::reflection::{Reflect, RuntimeValue, Shape};
use frunk::HCons as FrunkCons;
use frunk::HNil as FrunkNil;
use vstd::prelude::*;

verus! {

#[verifier::external_type_specification]
#[verifier::external_body]
pub struct ExFrunkHNil(FrunkNil);

#[verifier::external_type_specification]
#[verifier::external_body]
#[verifier::reject_recursive_types(H)]
#[verifier::reject_recursive_types(T)]
pub struct ExFrunkHCons<H, T>(FrunkCons<H, T>);

/// The `tail` field of a `frunk::HCons` (a plain field read).
#[verifier::external_body]
fn frunk_tail<H, T>(list: &FrunkCons<H, T>) -> &T {
    &list.tail
}

/// Walk a value-bearing `frunk` list and reflect each element type.
pub trait FrunkReflect {
    /// The shapes of the element types' reflected values, in list order.
    spec fn reflected_elements() -> Seq<Shape>;

    /// Whether every element type can be reflected.
    spec fn elements_reflectable() -> bool;

    /// Reflect every element type of this list, in order.
    fn reflect_runtime(&self) -> (r: Vec<RuntimeValue>)
        requires
            Self::elements_reflectable(),
        ensures
            r.deep_view() == Self::reflected_elements(),
    ;
}

impl FrunkReflect for FrunkNil {
    open spec fn reflected_elements() -> Seq<Shape> {
        Seq::empty()
    }

    open spec fn elements_reflectable() -> bool {
        true
    }

    fn reflect_runtime(&self) -> (r: Vec<RuntimeValue>) {
        let out: Vec<RuntimeValue> = Vec::new();
        assert(out.deep_view() =~= Seq::<Shape>::empty());
        out
    }
}

impl<H: Reflect<Value = RuntimeValue>, T: FrunkReflect> FrunkReflect for FrunkCons<H, T> {
    open spec fn reflected_elements() -> Seq<Shape> {
        seq![H::reflected()] + T::reflected_elements()
    }

    open spec fn elements_reflectable() -> bool {
        H::reflectable() && T::elements_reflectable()
    }

    fn reflect_runtime(&self) -> (r: Vec<RuntimeValue>) {
        let mut out: Vec<RuntimeValue> = Vec::new();
        out.push(H::reflect());
        let mut rest = frunk_tail(self).reflect_runtime();
        let ghost first = out.deep_view();
        let ghost tail = rest.deep_view();
        out.append(&mut rest);
        assert(out.deep_view() =~= first + tail);
        assert(first =~= seq![H::reflected()]);
        out
    }
}

} // verus!
