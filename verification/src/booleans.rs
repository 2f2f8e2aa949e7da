//! Type-level booleans with `Reflect` implementations and type-level logic.

use crate::reflection::Reflect;
use vstd::prelude::*;

verus! {

/// Type-level `true`.
pub struct True;

/// Type-level `false`.
pub struct False;

/// Types that represent type-level booleans.
pub trait Bool {
    /// The truth value this type denotes.
    spec fn truth() -> bool;

    /// The runtime `bool` value of this type-level boolean.
    fn to_bool() -> (b: bool)
        ensures
            b == Self::truth(),
    ;
}

impl Bool for True {
    open spec fn truth() -> bool {
        true
    }

    fn to_bool() -> (b: bool) {
        true
    }
}

impl Bool for False {
    open spec fn truth() -> bool {
        false
    }

    fn to_bool() -> (b: bool) {
        false
    }
}

impl Reflect for True {
    type Value = bool;

    open spec fn reflected() -> bool {
        true
    }

    open spec fn reflectable() -> bool {
        true
    }

    fn reflect() -> (v: bool) {
        true
    }
}

impl Reflect for False {
    type Value = bool;

    open spec fn reflected() -> bool {
        false
    }

    open spec fn reflectable() -> bool {
        true
    }

    fn reflect() -> (v: bool) {
        false
    }
}

/// Type-level boolean NOT.
pub trait Not: Bool {
    /// The negated type-level boolean.
    type Result: Bool;

    /// The result denotes the negation of the operand.
    proof fn lemma_not()
        ensures
            <Self::Result as Bool>::truth() == !Self::truth(),
    ;
}

impl Not for True {
    type Result = False;

    proof fn lemma_not() {
    }
}

impl Not for False {
    type Result = True;

    proof fn lemma_not() {
    }
}

/// Type-level boolean AND.
pub trait And<Rhs: Bool>: Bool {
    /// The result of `Self && Rhs`.
    type Result: Bool;

    /// The result denotes the conjunction of the operands.
    proof fn lemma_and()
        ensures
            <Self::Result as Bool>::truth() == (Self::truth() && Rhs::truth()),
    ;
}

impl And<True> for True {
    type Result = True;

    proof fn lemma_and() {
    }
}

impl And<False> for True {
    type Result = False;

    proof fn lemma_and() {
    }
}

impl And<True> for False {
    type Result = False;

    proof fn lemma_and() {
    }
}

impl And<False> for False {
    type Result = False;

    proof fn lemma_and() {
    }
}

/// Type-level boolean OR.
pub trait Or<Rhs: Bool>: Bool {
    /// The result of `Self || Rhs`.
    type Result: Bool;

    /// The result denotes the disjunction of the operands.
    proof fn lemma_or()
        ensures
            <Self::Result as Bool>::truth() == (Self::truth() || Rhs::truth()),
    ;
}

impl Or<True> for True {
    type Result = True;

    proof fn lemma_or() {
    }
}

impl Or<False> for True {
    type Result = True;

    proof fn lemma_or() {
    }
}

impl Or<True> for False {
    type Result = True;

    proof fn lemma_or() {
    }
}

impl Or<False> for False {
    type Result = False;

    proof fn lemma_or() {
    }
}

} // verus!
