#![allow(dead_code)]

use reify_reflect::naturals::{N3, S, Z};
use reify_reflect::reflection::{Reflect, RuntimeValue};
use reify_reflect::schema::{
    derived_value, enum_value, has_skip_attr, name_value, struct_value, Attribute, Data,
    DeriveError, Fields, NamedField, PositionalField, Variant,
};

fn named(name: &str, value: Option<RuntimeValue>) -> NamedField {
    NamedField {
        name: name.to_string(),
        attrs: vec![],
        value,
    }
}

/// A named field marked `#[reflect(skip)]`, whose type has no reflection.
fn skipped(name: &str) -> NamedField {
    NamedField {
        name: name.to_string(),
        attrs: vec![attr("reflect", &["skip"])],
        value: None,
    }
}

fn pos(value: RuntimeValue) -> PositionalField {
    PositionalField {
        attrs: vec![],
        value: Some(value),
    }
}

fn pos_skipped() -> PositionalField {
    PositionalField {
        attrs: vec![attr("reflect", &["skip"])],
        value: None,
    }
}

// struct Point { x: S<S<Z>>, y: S<S<S<Z>>> }
struct Point {
    x: S<S<Z>>,
    y: S<S<S<Z>>>,
}

impl Reflect for Point {
    type Value = RuntimeValue;
    fn reflect() -> RuntimeValue {
        struct_value(&Fields::Named(vec![
            named("x", Some(<S<S<Z>>>::reflect())),
            named("y", Some(<S<S<S<Z>>>>::reflect())),
        ]))
        .unwrap()
    }
}

#[test]
fn derive_simple_struct() {
    let reflected = Point::reflect();
    match &reflected {
        RuntimeValue::List(fields) => {
            assert_eq!(fields.len(), 2);
            match &fields[0] {
                RuntimeValue::List(pair) => {
                    assert_eq!(pair.len(), 2);
                    assert_eq!(
                        pair[0],
                        RuntimeValue::List(vec![RuntimeValue::Nat(b'x' as u64)])
                    );
                    assert_eq!(pair[1], RuntimeValue::Nat(2));
                }
                other => panic!("expected List for field entry, got {:?}", other),
            }
            match &fields[1] {
                RuntimeValue::List(pair) => {
                    assert_eq!(pair.len(), 2);
                    assert_eq!(
                        pair[0],
                        RuntimeValue::List(vec![RuntimeValue::Nat(b'y' as u64)])
                    );
                    assert_eq!(pair[1], RuntimeValue::Nat(3));
                }
                other => panic!("expected List for field entry, got {:?}", other),
            }
        }
        other => panic!("expected List at top level, got {:?}", other),
    }
}

// struct Labeled { #[reflect(skip)] _label: String, value: Z }
struct Labeled {
    _label: String,
    value: Z,
}

impl Reflect for Labeled {
    type Value = RuntimeValue;
    fn reflect() -> RuntimeValue {
        struct_value(&Fields::Named(vec![
            skipped("_label"),
            named("value", Some(Z::reflect())),
        ]))
        .unwrap()
    }
}

#[test]
fn derive_with_skip() {
    let reflected = Labeled::reflect();
    match &reflected {
        RuntimeValue::List(fields) => {
            assert_eq!(fields.len(), 1);
            match &fields[0] {
                RuntimeValue::List(pair) => {
                    assert_eq!(pair[1], RuntimeValue::Nat(0));
                }
                other => panic!("expected List for field entry, got {:?}", other),
            }
        }
        other => panic!("expected List at top level, got {:?}", other),
    }
}

// struct Inner { a: S<Z> }  struct Outer { inner: Inner, b: S<S<S<S<Z>>>> }
struct Inner {
    a: S<Z>,
}

impl Reflect for Inner {
    type Value = RuntimeValue;
    fn reflect() -> RuntimeValue {
        struct_value(&Fields::Named(vec![named("a", Some(<S<Z>>::reflect()))]))
        .unwrap()
    }
}

struct Outer {
    inner: Inner,
    b: S<S<S<S<Z>>>>,
}

impl Reflect for Outer {
    type Value = RuntimeValue;
    fn reflect() -> RuntimeValue {
        struct_value(&Fields::Named(vec![
            named("inner", Some(Inner::reflect())),
            named("b", Some(<S<S<S<S<Z>>>>>::reflect())),
        ]))
        .unwrap()
    }
}

#[test]
fn derive_nested_struct() {
    let reflected = Outer::reflect();
    match &reflected {
        RuntimeValue::List(fields) => {
            assert_eq!(fields.len(), 2);
            match &fields[0] {
                RuntimeValue::List(pair) => {
                    assert_eq!(pair.len(), 2);
                    match &pair[1] {
                        RuntimeValue::List(inner_fields) => {
                            assert_eq!(inner_fields.len(), 1);
                            match &inner_fields[0] {
                                RuntimeValue::List(inner_pair) => {
                                    assert_eq!(inner_pair[1], RuntimeValue::Nat(1));
                                }
                                other => panic!("expected List, got {:?}", other),
                            }
                        }
                        other => panic!("expected List for inner struct, got {:?}", other),
                    }
                }
                other => panic!("expected List for field entry, got {:?}", other),
            }
            match &fields[1] {
                RuntimeValue::List(pair) => {
                    assert_eq!(pair[1], RuntimeValue::Nat(4));
                }
                other => panic!("expected List for field entry, got {:?}", other),
            }
        }
        other => panic!("expected List at top level, got {:?}", other),
    }
}

// struct EmptyNamed {}
struct EmptyNamed {}

impl Reflect for EmptyNamed {
    type Value = RuntimeValue;
    fn reflect() -> RuntimeValue {
        struct_value(&Fields::Named(vec![]))
        .unwrap()
    }
}

#[test]
fn derive_empty_named_struct() {
    assert_eq!(EmptyNamed::reflect(), RuntimeValue::List(vec![]));
}

// struct Pixel;
struct Pixel;

impl Reflect for Pixel {
    type Value = RuntimeValue;
    fn reflect() -> RuntimeValue {
        struct_value(&Fields::Unit)
        .unwrap()
    }
}

#[test]
fn derive_unit_struct() {
    assert_eq!(Pixel::reflect(), RuntimeValue::Unit);
}

// struct Pair(S<Z>, S<S<Z>>);
struct Pair(S<Z>, S<S<Z>>);

impl Reflect for Pair {
    type Value = RuntimeValue;
    fn reflect() -> RuntimeValue {
        struct_value(&Fields::Positional(vec![
            pos(<S<Z>>::reflect()),
            pos(<S<S<Z>>>::reflect()),
        ]))
        .unwrap()
    }
}

#[test]
fn derive_tuple_struct() {
    let reflected = Pair::reflect();
    match &reflected {
        RuntimeValue::List(values) => {
            assert_eq!(values.len(), 2);
            assert_eq!(values[0], RuntimeValue::Nat(1));
            assert_eq!(values[1], RuntimeValue::Nat(2));
        }
        other => panic!("expected List, got {:?}", other),
    }
}

// struct Tagged(#[reflect(skip)] u32, Z);
struct Tagged(u32, Z);

impl Reflect for Tagged {
    type Value = RuntimeValue;
    fn reflect() -> RuntimeValue {
        struct_value(&Fields::Positional(vec![pos_skipped(), pos(Z::reflect())]))
        .unwrap()
    }
}

#[test]
fn derive_tuple_struct_with_skip() {
    let reflected = Tagged::reflect();
    match &reflected {
        RuntimeValue::List(values) => {
            assert_eq!(values.len(), 1);
            assert_eq!(values[0], RuntimeValue::Nat(0));
        }
        other => panic!("expected List, got {:?}", other),
    }
}

// enum Shape { Dot, Line(S<S<Z>>), Box { w: S<Z>, h: S<S<S<Z>>> } }
enum Shape {
    Dot,
    Line(S<S<Z>>),
    Box { w: S<Z>, h: S<S<S<Z>>> },
}

impl Reflect for Shape {
    type Value = RuntimeValue;
    fn reflect() -> RuntimeValue {
        enum_value(&vec![
            Variant {
                name: "Dot".to_string(),
                fields: Fields::Unit,
            },
            Variant {
                name: "Line".to_string(),
                fields: Fields::Positional(vec![pos(<S<S<Z>>>::reflect())]),
            },
            Variant {
                name: "Box".to_string(),
                fields: Fields::Named(vec![
                    named("w", Some(<S<Z>>::reflect())),
                    named("h", Some(<S<S<S<Z>>>>::reflect())),
                ]),
            },
        ])
        .unwrap()
    }
}

#[test]
fn derive_enum_with_mixed_variants() {
    let reflected = Shape::reflect();
    let variants = match reflected {
        RuntimeValue::List(v) => v,
        other => panic!("expected List, got {:?}", other),
    };
    assert_eq!(variants.len(), 3);

    let dot = match &variants[0] {
        RuntimeValue::List(v) => v,
        _ => panic!(),
    };
    assert_eq!(
        dot[0],
        RuntimeValue::List(
            b"Dot"
                .iter()
                .map(|b| RuntimeValue::Nat(*b as u64))
                .collect()
        )
    );
    assert_eq!(dot[1], RuntimeValue::Unit);

    let line = match &variants[1] {
        RuntimeValue::List(v) => v,
        _ => panic!(),
    };
    assert_eq!(
        line[0],
        RuntimeValue::List(
            b"Line"
                .iter()
                .map(|b| RuntimeValue::Nat(*b as u64))
                .collect()
        )
    );
    assert_eq!(line[1], RuntimeValue::List(vec![RuntimeValue::Nat(2)]));

    let bx = match &variants[2] {
        RuntimeValue::List(v) => v,
        _ => panic!(),
    };
    assert_eq!(
        bx[0],
        RuntimeValue::List(
            b"Box"
                .iter()
                .map(|b| RuntimeValue::Nat(*b as u64))
                .collect()
        )
    );
    let bx_fields = match &bx[1] {
        RuntimeValue::List(v) => v,
        _ => panic!(),
    };
    assert_eq!(bx_fields.len(), 2);
}

// Cross-module: derived structs over the crate's own naturals.
struct Point3 {
    x: S<S<Z>>,
    y: N3,
}

impl Reflect for Point3 {
    type Value = RuntimeValue;
    fn reflect() -> RuntimeValue {
        struct_value(&Fields::Named(vec![
            named("x", Some(<S<S<Z>>>::reflect())),
            named("y", Some(N3::reflect())),
        ]))
        .unwrap()
    }
}

struct Wrapper {
    point: Point3,
    flag: Z,
}

impl Reflect for Wrapper {
    type Value = RuntimeValue;
    fn reflect() -> RuntimeValue {
        struct_value(&Fields::Named(vec![
            named("point", Some(Point3::reflect())),
            named("flag", Some(Z::reflect())),
        ]))
        .unwrap()
    }
}

#[test]
fn derive_reflect_with_type_level_naturals() {
    let reflected = Point3::reflect();
    match &reflected {
        RuntimeValue::List(fields) => {
            assert_eq!(fields.len(), 2);
            if let RuntimeValue::List(pair) = &fields[0] {
                assert_eq!(pair[1], RuntimeValue::Nat(2));
            } else {
                panic!("expected list");
            }
            if let RuntimeValue::List(pair) = &fields[1] {
                assert_eq!(pair[1], RuntimeValue::Nat(3));
            } else {
                panic!("expected list");
            }
        }
        other => panic!("expected List, got {other:?}"),
    }
}

#[test]
fn derive_reflect_nested() {
    let reflected = Wrapper::reflect();
    match &reflected {
        RuntimeValue::List(fields) => {
            assert_eq!(fields.len(), 2);
            if let RuntimeValue::List(pair) = &fields[0] {
                assert!(matches!(pair[1], RuntimeValue::List(_)));
            }
            if let RuntimeValue::List(pair) = &fields[1] {
                assert_eq!(pair[1], RuntimeValue::Nat(0));
            }
        }
        other => panic!("expected List, got {other:?}"),
    }
}

#[test]
fn name_value_is_utf8_bytes() {
    assert_eq!(
        name_value("ab"),
        RuntimeValue::List(vec![RuntimeValue::Nat(97), RuntimeValue::Nat(98)])
    );
    // A non-ASCII name is encoded byte by byte: 'é' is 0xC3 0xA9.
    assert_eq!(
        name_value("é"),
        RuntimeValue::List(vec![RuntimeValue::Nat(0xC3), RuntimeValue::Nat(0xA9)])
    );
    assert_eq!(name_value(""), RuntimeValue::List(vec![]));
}

#[test]
fn skipped_fields_only_gives_empty_list() {
    assert_eq!(
        struct_value(&Fields::Named(vec![skipped("a"), skipped("b")])),
        Ok(RuntimeValue::List(vec![]))
    );
    assert_eq!(
        struct_value(&Fields::Positional(vec![pos_skipped()])),
        Ok(RuntimeValue::List(vec![]))
    );
}

#[test]
fn empty_enum_reflects_to_empty_list() {
    assert_eq!(enum_value(&vec![]), Ok(RuntimeValue::List(vec![])));
}

#[test]
fn derived_value_of_struct_and_enum() {
    assert_eq!(derived_value(&Data::Struct(Fields::Unit)), Ok(RuntimeValue::Unit));
    assert_eq!(
        derived_value(&Data::Enum(vec![Variant {
            name: "A".to_string(),
            fields: Fields::Unit,
        }])),
        Ok(RuntimeValue::List(vec![RuntimeValue::List(vec![
            RuntimeValue::List(vec![RuntimeValue::Nat(65)]),
            RuntimeValue::Unit,
        ])]))
    );
}

#[test]
fn unions_cannot_derive_reflect() {
    assert_eq!(derived_value(&Data::Union), Err(DeriveError::Union));
}

fn attr(path: &str, nested: &[&str]) -> Attribute {
    Attribute {
        path: path.to_string(),
        nested: nested.iter().map(|s| s.to_string()).collect(),
    }
}

#[test]
fn skip_attribute_is_recognised() {
    assert_eq!(has_skip_attr(&vec![]), Ok(false));
    assert_eq!(has_skip_attr(&vec![attr("reflect", &["skip"])]), Ok(true));
    assert_eq!(
        has_skip_attr(&vec![attr("serde", &["rename"]), attr("reflect", &["skip"])]),
        Ok(true)
    );
    assert_eq!(has_skip_attr(&vec![attr("doc", &["skip"])]), Ok(false));
    assert_eq!(has_skip_attr(&vec![attr("reflect", &[])]), Ok(false));
}

#[test]
fn unknown_reflect_argument_is_an_error() {
    assert_eq!(
        has_skip_attr(&vec![attr("reflect", &["other"])]),
        Err(DeriveError::ExpectedSkip("other".to_string()))
    );
    assert_eq!(
        has_skip_attr(&vec![attr("reflect", &["skip", "other"])]),
        Err(DeriveError::ExpectedSkip("other".to_string()))
    );
    // The first attribute that names `skip` decides; later ones are not read.
    assert_eq!(
        has_skip_attr(&vec![attr("reflect", &["skip"]), attr("reflect", &["bad"])]),
        Ok(true)
    );
}

#[test]
fn bad_reflect_attribute_fails_the_derivation() {
    let bad = NamedField {
        name: "b".to_string(),
        attrs: vec![attr("reflect", &["rename"])],
        value: Some(Z::reflect()),
    };
    let worse = NamedField {
        name: "c".to_string(),
        attrs: vec![attr("reflect", &["other"])],
        value: Some(Z::reflect()),
    };
    // The first failing field, in order, decides.
    assert_eq!(
        derived_value(&Data::Struct(Fields::Named(vec![named("a", Some(Z::reflect())), bad, worse]))),
        Err(DeriveError::ExpectedSkip("rename".to_string()))
    );
    let bad_pos = PositionalField {
        attrs: vec![attr("reflect", &["skip", "x"])],
        value: None,
    };
    assert_eq!(
        derived_value(&Data::Struct(Fields::Positional(vec![bad_pos]))),
        Err(DeriveError::ExpectedSkip("x".to_string()))
    );
    // In an enum, variants are read in order.
    let v1 = Variant {
        name: "A".to_string(),
        fields: Fields::Unit,
    };
    let v2 = Variant {
        name: "B".to_string(),
        fields: Fields::Positional(vec![PositionalField {
            attrs: vec![attr("reflect", &["y"])],
            value: None,
        }]),
    };
    assert_eq!(
        derived_value(&Data::Enum(vec![v1, v2])),
        Err(DeriveError::ExpectedSkip("y".to_string()))
    );
}

#[test]
fn derive_error_messages() {
    assert_eq!(DeriveError::Union.message(), "Reflect cannot be derived for unions");
    assert_eq!(
        DeriveError::ExpectedSkip("x".to_string()).message(),
        "expected `skip`"
    );
}

#[test]
fn kept_field_without_reflection_fails_the_derivation() {
    // struct S { a: Z, b: NotReflect }
    assert_eq!(
        derived_value(&Data::Struct(Fields::Named(vec![named("a", Some(Z::reflect())), named("b", None)]))),
        Err(DeriveError::NotReflected)
    );
    // struct T(Z, NotReflect);
    let missing = PositionalField {
        attrs: vec![],
        value: None,
    };
    assert_eq!(
        struct_value(&Fields::Positional(vec![pos(Z::reflect()), missing])),
        Err(DeriveError::NotReflected)
    );
    // The same field, skipped, is fine.
    assert_eq!(
        derived_value(&Data::Struct(Fields::Named(vec![named("a", Some(Z::reflect())), skipped("b")]))),
        Ok(RuntimeValue::List(vec![RuntimeValue::List(vec![
            name_value("a"),
            Z::reflect()
        ])]))
    );
}

#[test]
fn attribute_errors_come_before_missing_reflection() {
    let bad = NamedField {
        name: "c".to_string(),
        attrs: vec![attr("reflect", &["rename"])],
        value: Some(Z::reflect()),
    };
    assert_eq!(
        struct_value(&Fields::Named(vec![named("a", None), bad])),
        Err(DeriveError::ExpectedSkip("rename".to_string()))
    );
    // In an enum: a missing value in the first variant, a bad attribute in
    // the second; the attribute error is reported.
    let v1 = Variant {
        name: "A".to_string(),
        fields: Fields::Positional(vec![PositionalField {
            attrs: vec![],
            value: None,
        }]),
    };
    let v2 = Variant {
        name: "B".to_string(),
        fields: Fields::Positional(vec![PositionalField {
            attrs: vec![attr("reflect", &["y"])],
            value: Some(Z::reflect()),
        }]),
    };
    assert_eq!(
        enum_value(&vec![v1, v2]),
        Err(DeriveError::ExpectedSkip("y".to_string()))
    );
    let v3 = Variant {
        name: "C".to_string(),
        fields: Fields::Unit,
    };
    let v4 = Variant {
        name: "D".to_string(),
        fields: Fields::Named(vec![named("x", None)]),
    };
    assert_eq!(derived_value(&Data::Enum(vec![v3, v4])), Err(DeriveError::NotReflected));
}

#[test]
fn not_reflected_message() {
    assert_eq!(
        DeriveError::NotReflected.message(),
        "the type of a kept field does not implement `Reflect`"
    );
}
