//! Traits with const-generic methods, dispatched from runtime values the way
//! an attribute-generated dispatcher does it: a range check, then a
//! `NatCallback` wrapper around the trait object handed to `reify_nat`.

use reify_reflect::const_reify::{reify_nat, NatCallback};
use reify_reflect::text::pascal_case;

// --- Basic: single const-generic method, &self, no extra params ---

trait Squarer {
    fn square<const N: u64>(&self) -> u64;
}

struct SquarerSquareCallback<'a, T: Squarer> {
    obj: &'a T,
}

impl<T: Squarer> NatCallback<u64> for SquarerSquareCallback<'_, T> {
    fn call<const N: u64>(&self) -> u64 {
        self.obj.square::<N>()
    }
}

fn reify_square<T: Squarer>(val: u64, obj: &T) -> u64 {
    if val > 255 {
        panic!("value {} out of range 0..=255", val);
    }
    reify_nat(val, &SquarerSquareCallback { obj })
}

struct MySquarer;

impl Squarer for MySquarer {
    fn square<const N: u64>(&self) -> u64 {
        N * N
    }
}

#[test]
fn basic_dispatch() {
    assert_eq!(reify_square(0u64, &MySquarer), 0);
    assert_eq!(reify_square(5u64, &MySquarer), 25);
    assert_eq!(reify_square(12u64, &MySquarer), 144);
    assert_eq!(reify_square(255u64, &MySquarer), 255 * 255);
}

// --- Method with extra parameters ---

trait ModArith {
    fn mul_mod<const N: u64>(&self, a: u64, b: u64) -> u64;
}

struct ModArithMulModCallback<'a, T: ModArith> {
    obj: &'a T,
    a: u64,
    b: u64,
}

impl<T: ModArith> NatCallback<u64> for ModArithMulModCallback<'_, T> {
    fn call<const N: u64>(&self) -> u64 {
        self.obj.mul_mod::<N>(self.a, self.b)
    }
}

fn reify_mul_mod<T: ModArith>(val: u64, obj: &T, a: u64, b: u64) -> u64 {
    if val > 255 {
        panic!("value {} out of range 0..=255", val);
    }
    reify_nat(val, &ModArithMulModCallback { obj, a, b })
}

struct ModArithImpl;

impl ModArith for ModArithImpl {
    fn mul_mod<const N: u64>(&self, a: u64, b: u64) -> u64 {
        if N == 0 {
            0
        } else {
            (a % N) * (b % N) % N
        }
    }
}

#[test]
fn dispatch_with_params() {
    assert_eq!(reify_mul_mod(7u64, &ModArithImpl, 10, 20), 4);
    assert_eq!(
        reify_mul_mod(13u64, &ModArithImpl, 100, 200),
        (100 * 200) % 13
    );
}

// --- Multiple methods, only const-generic ones get dispatch ---

trait Mixed {
    fn with_const<const N: u64>(&self) -> u64;
    fn without_const(&self) -> &str;
}

struct MixedWithConstCallback<'a, T: Mixed> {
    obj: &'a T,
}

impl<T: Mixed> NatCallback<u64> for MixedWithConstCallback<'_, T> {
    fn call<const N: u64>(&self) -> u64 {
        self.obj.with_const::<N>()
    }
}

fn reify_with_const<T: Mixed>(val: u64, obj: &T) -> u64 {
    if val > 15 {
        panic!("value {} out of range 0..=15", val);
    }
    reify_nat(val, &MixedWithConstCallback { obj })
}

struct MixedImpl;

impl Mixed for MixedImpl {
    fn with_const<const N: u64>(&self) -> u64 {
        N + 1
    }

    fn without_const(&self) -> &str {
        "hello"
    }
}

#[test]
fn mixed_methods() {
    assert_eq!(reify_with_const(0u64, &MixedImpl), 1);
    assert_eq!(reify_with_const(15u64, &MixedImpl), 16);
    assert_eq!(MixedImpl.without_const(), "hello");
}

// --- &mut self methods: no callback wrapper, a direct match ---

trait Accumulator {
    fn accumulate<const N: u64>(&mut self);
}

fn reify_accumulate<T: Accumulator>(val: u64, obj: &mut T) {
    match val {
        0 => obj.accumulate::<0>(),
        1 => obj.accumulate::<1>(),
        2 => obj.accumulate::<2>(),
        3 => obj.accumulate::<3>(),
        4 => obj.accumulate::<4>(),
        5 => obj.accumulate::<5>(),
        6 => obj.accumulate::<6>(),
        7 => obj.accumulate::<7>(),
        8 => obj.accumulate::<8>(),
        9 => obj.accumulate::<9>(),
        10 => obj.accumulate::<10>(),
        11 => obj.accumulate::<11>(),
        12 => obj.accumulate::<12>(),
        13 => obj.accumulate::<13>(),
        14 => obj.accumulate::<14>(),
        15 => obj.accumulate::<15>(),
        16 => obj.accumulate::<16>(),
        17 => obj.accumulate::<17>(),
        18 => obj.accumulate::<18>(),
        19 => obj.accumulate::<19>(),
        20 => obj.accumulate::<20>(),
        21 => obj.accumulate::<21>(),
        22 => obj.accumulate::<22>(),
        23 => obj.accumulate::<23>(),
        24 => obj.accumulate::<24>(),
        25 => obj.accumulate::<25>(),
        26 => obj.accumulate::<26>(),
        27 => obj.accumulate::<27>(),
        28 => obj.accumulate::<28>(),
        29 => obj.accumulate::<29>(),
        30 => obj.accumulate::<30>(),
        31 => obj.accumulate::<31>(),
        other => panic!("value {} out of range 0..=31", other),
    }
}

struct Counter {
    total: u64,
}

impl Accumulator for Counter {
    fn accumulate<const N: u64>(&mut self) {
        self.total += N;
    }
}

#[test]
fn mut_self_dispatch() {
    let mut counter = Counter { total: 0 };
    reify_accumulate(5u64, &mut counter);
    reify_accumulate(10u64, &mut counter);
    assert_eq!(counter.total, 15);
}

// --- Predicate (returns bool) ---

trait Predicate {
    fn is_even<const N: u64>(&self) -> bool;
}

struct PredicateIsEvenCallback<'a, T: Predicate> {
    obj: &'a T,
}

impl<T: Predicate> NatCallback<bool> for PredicateIsEvenCallback<'_, T> {
    fn call<const N: u64>(&self) -> bool {
        self.obj.is_even::<N>()
    }
}

fn reify_is_even<T: Predicate>(val: u64, obj: &T) -> bool {
    if val > 255 {
        panic!("value {} out of range 0..=255", val);
    }
    reify_nat(val, &PredicateIsEvenCallback { obj })
}

struct EvenChecker;

impl Predicate for EvenChecker {
    fn is_even<const N: u64>(&self) -> bool {
        N % 2 == 0
    }
}

#[test]
fn bool_return_type() {
    assert!(reify_is_even(0u64, &EvenChecker));
    assert!(!reify_is_even(1u64, &EvenChecker));
    assert!(reify_is_even(42u64, &EvenChecker));
    assert!(!reify_is_even(255u64, &EvenChecker));
}

// --- Small range ---

trait Tiny {
    fn val<const N: u64>(&self) -> u64;
}

struct TinyValCallback<'a, T: Tiny> {
    obj: &'a T,
}

impl<T: Tiny> NatCallback<u64> for TinyValCallback<'_, T> {
    fn call<const N: u64>(&self) -> u64 {
        self.obj.val::<N>()
    }
}

fn reify_val<T: Tiny>(val: u64, obj: &T) -> u64 {
    if val > 3 {
        panic!("value {} out of range 0..=3", val);
    }
    reify_nat(val, &TinyValCallback { obj })
}

struct TinyImpl;

impl Tiny for TinyImpl {
    fn val<const N: u64>(&self) -> u64 {
        N
    }
}

#[test]
fn small_range() {
    assert_eq!(reify_val(0u64, &TinyImpl), 0);
    assert_eq!(reify_val(3u64, &TinyImpl), 3);
}

// --- Names of the generated callback wrappers ---

#[test]
fn callback_wrapper_names_are_pascal_case() {
    assert_eq!(pascal_case("square"), "Square");
    assert_eq!(pascal_case("mul_mod"), "MulMod");
    assert_eq!(pascal_case("with_const"), "WithConst");
    assert_eq!(pascal_case("is_even"), "IsEven");
    assert_eq!(pascal_case(""), "");
    assert_eq!(pascal_case("__a__b_"), "AB");
    assert_eq!(pascal_case("x9_y"), "X9Y");
    assert_eq!(pascal_case("already_Upper"), "AlreadyUpper");
    assert_eq!(pascal_case("é_a"), "éA");
}
