use reify_reflect::booleans::{And, Bool, False, Not, Or, True};
use reify_reflect::hlist::{HCons, HList, HNil};
use reify_reflect::naturals::{
    Add, Lt, Mul, Nat, N0, N1, N2, N3, N5, N8, S, Z,
};
use reify_reflect::frunk_bridge::FrunkReflect;
use reify_reflect::reflection::{Reflect, RuntimeValue};
use std::marker::PhantomData;
use typenum::Unsigned;

#[test]
fn zero_reflects_to_nat_0() {
    assert_eq!(Z::reflect(), RuntimeValue::Nat(0));
}

#[test]
fn successor_reflects_correctly() {
    assert_eq!(S::<Z>::reflect(), RuntimeValue::Nat(1));
    assert_eq!(<S<S<Z>>>::reflect(), RuntimeValue::Nat(2));
    assert_eq!(<S<S<S<Z>>>>::reflect(), RuntimeValue::Nat(3));
}

#[test]
fn nat_to_u64() {
    assert_eq!(Z::to_u64(), 0);
    assert_eq!(<S<Z>>::to_u64(), 1);
    assert_eq!(<S<S<S<S<S<Z>>>>>>::to_u64(), 5);
}

#[test]
fn type_aliases() {
    assert_eq!(N0::to_u64(), 0);
    assert_eq!(N1::to_u64(), 1);
    assert_eq!(N5::to_u64(), 5);
    assert_eq!(N8::to_u64(), 8);
}

#[test]
fn addition() {
    assert_eq!(<<Z as Add<N3>>::Result as Nat>::to_u64(), 3);
    assert_eq!(<<N2 as Add<N3>>::Result as Nat>::to_u64(), 5);
    assert_eq!(<<N1 as Add<N0>>::Result as Nat>::to_u64(), 1);
}

#[test]
fn multiplication() {
    assert_eq!(<<Z as Mul<N3>>::Result as Nat>::to_u64(), 0);
    assert_eq!(<<N2 as Mul<N3>>::Result as Nat>::to_u64(), 6);
    assert_eq!(<<N1 as Mul<N5>>::Result as Nat>::to_u64(), 5);
    assert_eq!(<<N3 as Mul<N1>>::Result as Nat>::to_u64(), 3);
}

#[test]
fn less_than() {
    assert!(!<Z as Lt<Z>>::VALUE);
    assert!(<Z as Lt<S<Z>>>::VALUE);
    assert!(!<S<Z> as Lt<Z>>::VALUE);
    assert!(<N2 as Lt<N5>>::VALUE);
    assert!(!<N5 as Lt<N2>>::VALUE);
    assert!(!<N3 as Lt<N3>>::VALUE);
}

#[test]
fn reflect_returns_runtime_value() {
    assert_eq!(N5::reflect(), RuntimeValue::Nat(5));
    assert_eq!(N0::reflect(), RuntimeValue::Nat(0));
}

#[test]
fn our_nat_to_u64_matches_typenum() {
    assert_eq!(reify_reflect::naturals::nat_to_u64::<N0>(), <typenum::U0 as Unsigned>::U64);
    assert_eq!(reify_reflect::naturals::nat_to_u64::<N5>(), 5);
    assert_eq!(reify_reflect::naturals::nat_to_u64::<N8>(), <typenum::U8 as Unsigned>::U64);
}

#[test]
fn arithmetic_laws_on_values() {
    // (2 * 3) + 5 = 11 and 3 * 2 = 6 = 2 * 3
    type Six = <N2 as Mul<N3>>::Result;
    assert_eq!(<<Six as Add<N5>>::Result as Nat>::to_u64(), 11);
    assert_eq!(
        <<N3 as Mul<N2>>::Result as Nat>::to_u64(),
        <<N2 as Mul<N3>>::Result as Nat>::to_u64()
    );
    assert_eq!(<<N8 as Add<N0>>::Result as Nat>::to_u64(), 8);
    assert!(<N3 as Lt<N8>>::VALUE);
}

#[test]
fn true_reflects() {
    assert!(True::reflect());
}

#[test]
fn false_reflects() {
    assert!(!False::reflect());
}

#[test]
fn bool_to_bool() {
    assert!(True::to_bool());
    assert!(!False::to_bool());
}

#[test]
fn not() {
    assert!(!<<True as Not>::Result as Bool>::to_bool());
    assert!(<<False as Not>::Result as Bool>::to_bool());
}

#[test]
fn and() {
    assert!(<<True as And<True>>::Result as Bool>::to_bool());
    assert!(!<<True as And<False>>::Result as Bool>::to_bool());
    assert!(!<<False as And<True>>::Result as Bool>::to_bool());
    assert!(!<<False as And<False>>::Result as Bool>::to_bool());
}

#[test]
fn or() {
    assert!(<<True as Or<True>>::Result as Bool>::to_bool());
    assert!(<<True as Or<False>>::Result as Bool>::to_bool());
    assert!(<<False as Or<True>>::Result as Bool>::to_bool());
    assert!(!<<False as Or<False>>::Result as Bool>::to_bool());
}

#[test]
fn hnil_reflects_to_empty_list() {
    assert_eq!(HNil::reflect(), Vec::<RuntimeValue>::new());
}

#[test]
fn single_element_list() {
    type L = HCons<Z, HNil>;
    assert_eq!(L::reflect(), vec![RuntimeValue::Nat(0)]);
}

#[test]
fn multi_element_list() {
    type L = HCons<S<S<Z>>, HCons<S<Z>, HCons<Z, HNil>>>;
    assert_eq!(
        L::reflect(),
        vec![
            RuntimeValue::Nat(2),
            RuntimeValue::Nat(1),
            RuntimeValue::Nat(0),
        ]
    );
}

#[test]
fn hlist_len() {
    assert_eq!(HNil::len(), 0);
    assert_eq!(<HCons<Z, HNil>>::len(), 1);
    assert_eq!(<HCons<Z, HCons<Z, HCons<Z, HNil>>>>::len(), 3);
}

#[test]
fn hlist_is_empty() {
    assert!(HNil::is_empty());
    assert!(!<HCons<Z, HNil>>::is_empty());
}

#[test]
fn round_trip_type_level_to_runtime() {
    type List = HCons<S<S<S<Z>>>, HCons<S<Z>, HCons<Z, HNil>>>;
    let reflected = List::reflect();
    assert_eq!(reflected.len(), 3);
    assert_eq!(reflected[0], RuntimeValue::Nat(3));
    assert_eq!(reflected[1], RuntimeValue::Nat(1));
    assert_eq!(reflected[2], RuntimeValue::Nat(0));
}

#[test]
fn type_level_hlist_reflect() {
    type MyList = HCons<N5, HCons<N3, HCons<Z, HNil>>>;
    let reflected = MyList::reflect();
    assert_eq!(
        reflected,
        vec![
            RuntimeValue::Nat(5),
            RuntimeValue::Nat(3),
            RuntimeValue::Nat(0),
        ]
    );
}

#[test]
fn type_level_booleans_reflect() {
    assert!(True::reflect());
    assert!(!False::reflect());
}

#[test]
fn empty_frunk_list() {
    let list = frunk::HNil;
    assert_eq!(list.reflect_runtime(), Vec::<RuntimeValue>::new());
}

#[test]
fn frunk_list_of_our_nats() {
    let list = frunk::HCons {
        head: Z,
        tail: frunk::HCons {
            head: S::<Z>(PhantomData),
            tail: frunk::HCons {
                head: S::<S<Z>>(PhantomData),
                tail: frunk::HNil,
            },
        },
    };
    assert_eq!(
        list.reflect_runtime(),
        vec![
            RuntimeValue::Nat(0),
            RuntimeValue::Nat(1),
            RuntimeValue::Nat(2),
        ]
    );
}

#[test]
fn frunk_list_keeps_element_order() {
    let list = frunk::HCons {
        head: S::<reify_reflect::naturals::N4>(PhantomData),
        tail: frunk::HCons {
            head: S::<N2>(PhantomData),
            tail: frunk::HNil,
        },
    };
    assert_eq!(
        list.reflect_runtime(),
        vec![RuntimeValue::Nat(5), RuntimeValue::Nat(3)]
    );
}

#[test]
fn hlist_len_matches_reflected_length() {
    type L3 = HCons<N5, HCons<N3, HCons<Z, HNil>>>;
    assert_eq!(L3::len(), L3::reflect().len());
    assert_eq!(HNil::len(), HNil::reflect().len());
}
