//! Peano-encoded type-level natural numbers with type-level arithmetic.
//!
//! Each trait pairs its type-level computation with a lemma that ties it to
//! ordinary arithmetic on the numbers the types denote.

use crate::reflection::{Reflect, RuntimeValue, Shape};
use std::marker::PhantomData;
use vstd::prelude::*;

verus! {

/// Type-level zero.
pub struct Z;

/// Type-level successor. `S<N>` represents `N + 1`.
pub struct S<N>(pub PhantomData<N>);

/// Types that represent type-level natural numbers.
pub trait Nat {
    /// The number this type denotes.
    spec fn value() -> nat;

    /// The runtime `u64` value of this type-level natural.
    fn to_u64() -> (r: u64)
        requires
            Self::value() <= u64::MAX,
        ensures
            r == Self::value(),
    ;
}

impl Nat for Z {
    open spec fn value() -> nat {
        0
    }

    fn to_u64() -> (r: u64) {
        0
    }
}

impl<N: Nat> Nat for S<N> {
    open spec fn value() -> nat {
        N::value() + 1
    }

    fn to_u64() -> (r: u64) {
        1 + N::to_u64()
    }
}

impl Reflect for Z {
    type Value = RuntimeValue;

    open spec fn reflected() -> Shape {
        Shape::Nat(0)
    }

    open spec fn reflectable() -> bool {
        true
    }

    fn reflect() -> (v: RuntimeValue) {
        RuntimeValue::Nat(0)
    }
}

impl<N: Nat> Reflect for S<N> {
    type Value = RuntimeValue;

    open spec fn reflected() -> Shape {
        Shape::Nat(<S<N> as Nat>::value() as u64)
    }

    open spec fn reflectable() -> bool {
        <S<N> as Nat>::value() <= u64::MAX
    }

    fn reflect() -> (v: RuntimeValue) {
        RuntimeValue::Nat(<S<N> as Nat>::to_u64())
    }
}

/// Type-level addition: `<A as Add<B>>::Result` denotes `A + B`.
pub trait Add<Rhs: Nat>: Nat {
    /// The resulting type-level natural.
    type Result: Nat;

    /// The result denotes the sum of the operands.
    proof fn lemma_add()
        ensures
            <Self::Result as Nat>::value() == Self::value() + Rhs::value(),
    ;
}

// Z + N = N
impl<N: Nat> Add<N> for Z {
    type Result = N;

    proof fn lemma_add() {
    }
}

// S<M> + N = S<M + N>
impl<M: Nat + Add<N>, N: Nat> Add<N> for S<M> {
    type Result = S<<M as Add<N>>::Result>;

    proof fn lemma_add() {
        M::lemma_add();
    }
}

/// Type-level multiplication: `<A as Mul<B>>::Result` denotes `A * B`.
pub trait Mul<Rhs: Nat>: Nat {
    /// The resulting type-level natural.
    type Result: Nat;

    /// The result denotes the product of the operands.
    proof fn lemma_mul()
        ensures
            <Self::Result as Nat>::value() == Self::value() * Rhs::value(),
    ;
}

// Z * N = Z
impl<N: Nat> Mul<N> for Z {
    type Result = Z;

    proof fn lemma_mul() {
    }
}

// S<M> * N = N + (M * N)
impl<M, N> Mul<N> for S<M> where M: Nat + Mul<N>, N: Nat + Add<<M as Mul<N>>::Result> {
    type Result = <N as Add<<M as Mul<N>>::Result>>::Result;

    proof fn lemma_mul() {
        M::lemma_mul();
        N::lemma_add();
        let m = M::value();
        let n = N::value();
        assert((m + 1) * n == n + m * n) by (nonlinear_arith);
    }
}

/// Type-level less-than: `<A as Lt<B>>::VALUE` is true exactly when `A < B`.
pub trait Lt<Rhs: Nat>: Nat {
    /// `true` if `Self < Rhs` at the type level.
    const VALUE: bool;

    /// `VALUE` is the comparison of the numbers the operands denote.
    proof fn lemma_lt()
        ensures
            Self::VALUE == (Self::value() < Rhs::value()),
    ;
}

// Z < Z = false
impl Lt<Z> for Z {
    const VALUE: bool = false;

    proof fn lemma_lt() {
    }
}

// Z < S<N> = true
impl<N: Nat> Lt<S<N>> for Z {
    const VALUE: bool = true;

    proof fn lemma_lt() {
    }
}

// S<M> < Z = false
impl<M: Nat> Lt<Z> for S<M> {
    const VALUE: bool = false;

    proof fn lemma_lt() {
    }
}

// S<M> < S<N> = M < N
impl<M: Nat + Lt<N>, N: Nat> Lt<S<N>> for S<M> {
    const VALUE: bool = <M as Lt<N>>::VALUE;

    proof fn lemma_lt() {
        M::lemma_lt();
    }
}

/// Type alias for 0.
pub type N0 = Z;

/// Type alias for 1.
pub type N1 = S<N0>;

/// Type alias for 2.
pub type N2 = S<N1>;

/// Type alias for 3.
pub type N3 = S<N2>;

/// Type alias for 4.
pub type N4 = S<N3>;

/// Type alias for 5.
pub type N5 = S<N4>;

/// Type alias for 6.
pub type N6 = S<N5>;

/// Type alias for 7.
pub type N7 = S<N6>;

/// Type alias for 8.
pub type N8 = S<N7>;

/// Convert one of our type-level naturals to its runtime `u64` value.
pub fn nat_to_u64<N: Nat>() -> (r: u64)
    requires
        N::value() <= u64::MAX,
    ensures
        r == N::value(),
{
    N::to_u64()
}

} // verus!
