use reify_reflect::reflection::{reify, Reflect, RuntimeValue};

#[test]
fn runtime_value_nat() {
    let val = RuntimeValue::Nat(42);
    assert_eq!(val, RuntimeValue::Nat(42));
}

#[test]
fn runtime_value_bool() {
    let val = RuntimeValue::Bool(true);
    assert_eq!(val, RuntimeValue::Bool(true));
}

#[test]
fn runtime_value_list() {
    let val = RuntimeValue::List(vec![RuntimeValue::Nat(1), RuntimeValue::Nat(2)]);
    assert_eq!(
        val,
        RuntimeValue::List(vec![RuntimeValue::Nat(1), RuntimeValue::Nat(2)])
    );
}

#[test]
fn runtime_value_unit() {
    assert_eq!(RuntimeValue::Unit, RuntimeValue::Unit);
}

#[test]
fn runtime_value_clone() {
    let val = RuntimeValue::List(vec![RuntimeValue::Bool(false)]);
    let cloned = val.clone();
    assert_eq!(val, cloned);
}

#[test]
fn runtime_value_clone_nested() {
    let val = RuntimeValue::List(vec![
        RuntimeValue::Nat(7),
        RuntimeValue::List(vec![RuntimeValue::Unit, RuntimeValue::Bool(true)]),
        RuntimeValue::List(vec![]),
    ]);
    let cloned = val.clone();
    assert_eq!(val, cloned);
    assert_ne!(cloned, RuntimeValue::List(vec![]));
}

struct TestZero;

impl Reflect for TestZero {
    type Value = RuntimeValue;
    fn reflect() -> Self::Value {
        RuntimeValue::Nat(0)
    }
}

#[test]
fn reflect_trait_works() {
    assert_eq!(TestZero::reflect(), RuntimeValue::Nat(0));
}

#[test]
fn reify_basic() {
    let result = reify(&42i32, |token| *token.reflect() + 1);
    assert_eq!(result, 43);
}

#[test]
fn reify_string() {
    let s = String::from("hello");
    let len = reify(&s, |token| token.reflect().len());
    assert_eq!(len, 5);
}

#[test]
fn reify_nested() {
    let result = reify(&10i32, |outer| {
        reify(&20i32, |inner| outer.reflect() + inner.reflect())
    });
    assert_eq!(result, 30);
}

#[test]
fn reify_vec() {
    let data = vec![1, 2, 3, 4, 5];
    let sum = reify(&data, |token| token.reflect().iter().sum::<i32>());
    assert_eq!(sum, 15);
}

#[test]
fn reify_with_reflect_trait() {
    let reflected = TestZero::reflect();
    let result = reify(&reflected, |token| match token.reflect() {
        RuntimeValue::Nat(n) => *n,
        _ => panic!("expected Nat"),
    });
    assert_eq!(result, 0);
}

#[test]
fn reify_dyn_trait() {
    trait Greet {
        fn greet(&self) -> &str;
    }
    struct Hello;
    impl Greet for Hello {
        fn greet(&self) -> &str {
            "hi"
        }
    }

    let obj: &dyn Greet = &Hello;
    let result = reify(obj, |token| token.reflect().greet().to_string());
    assert_eq!(result, "hi");
}

#[test]
fn reify_slice() {
    let data = [1, 2, 3];
    let sum = reify(&data[..], |token| token.reflect().iter().sum::<i32>());
    assert_eq!(sum, 6);
}
