//! The structural encoding that a derived `Reflect` implementation gives a
//! struct or an enum:
//!
//! - a struct with named fields becomes a list of `[name bytes, value]` pairs;
//! - a tuple struct becomes the list of its positional values;
//! - a unit struct becomes `Unit`;
//! - an enum becomes the list of its variants, each `[name bytes, payload]`,
//!   where the payload follows the variant's own field shape.
//!
//! Names are encoded as the list of their UTF-8 bytes, each as a `Nat`.
//! Fields marked `#[reflect(skip)]` are left out; any other item inside a
//! `reflect(...)` attribute makes the derivation fail, and so does a union.
//! Attribute errors are found first, over the whole type; after them, a
//! kept field whose type has no reflected value fails the derivation.

use crate::reflection::{lemma_list_shape, RuntimeValue, Shape};
use vstd::prelude::*;
use vstd::string::*;
use vstd::utf8::encode_utf8;

verus! {

/// An attribute on a field: its path and the items inside its parentheses.
pub struct Attribute {
    /// The attribute's path (`reflect` for `#[reflect(..)]`).
    pub path: String,
    /// The items between its parentheses, in order.
    pub nested: Vec<String>,
}

/// A field with a name.
pub struct NamedField {
    /// The field's name.
    pub name: String,
    /// The field's attributes, in order.
    pub attrs: Vec<Attribute>,
    /// The reflected value of the field's type, or `None` when the type has
    /// none; a kept field without a value fails the derivation.
    pub value: Option<RuntimeValue>,
}

/// A positional field.
pub struct PositionalField {
    /// The field's attributes, in order.
    pub attrs: Vec<Attribute>,
    /// The reflected value of the field's type, or `None` when the type has
    /// none; a kept field without a value fails the derivation.
    pub value: Option<RuntimeValue>,
}

/// The fields of a struct or of an enum variant.
pub enum Fields {
    /// Braced fields, in declaration order.
    Named(Vec<NamedField>),
    /// Positional fields, in declaration order.
    Positional(Vec<PositionalField>),
    /// No fields and no braces.
    Unit,
}

/// One variant of an enum.
pub struct Variant {
    /// The variant's name.
    pub name: String,
    /// The variant's fields.
    pub fields: Fields,
}

/// The body of the type a `Reflect` implementation is derived for.
pub enum Data {
    /// A struct with these fields.
    Struct(Fields),
    /// An enum with these variants.
    Enum(Vec<Variant>),
    /// A union.
    Union,
}

/// Why `Reflect` cannot be derived, or a field's attributes not read.
#[derive(Debug, PartialEq, Eq)]
pub enum DeriveError {
    /// `Reflect` cannot be derived for a union.
    Union,
    /// A `reflect(...)` attribute holds something other than `skip`.
    ExpectedSkip(String),
    /// A field that is not skipped has a type without a reflected value.
    NotReflected,
}

/// The list of the bytes `b`, each as a natural.
pub open spec fn bytes_shape(b: Seq<u8>) -> Shape {
    Shape::List(b.map_values(|x: u8| Shape::Nat(x as u64)))
}

/// The encoding of a name: the list of its UTF-8 bytes.
pub open spec fn name_shape(name: Seq<char>) -> Shape {
    bytes_shape(encode_utf8(name))
}

/// A field with these attributes is kept: they read without error and do
/// not skip it.
pub open spec fn kept(attrs: Seq<Attribute>) -> bool {
    skip_result(attrs) == Ok::<bool, Seq<char>>(false)
}

/// The entry of a named field: `[name bytes, value]`, or nothing when the
/// field is not kept.
pub open spec fn named_entry(f: NamedField) -> Option<Shape> {
    if kept(f.attrs@) {
        match f.value {
            Some(v) => Some(Shape::List(seq![name_shape(f.name@), v.deep_view()])),
            None => None,
        }
    } else {
        None
    }
}

/// The entry of a positional field: its value, or nothing when the field
/// is not kept.
pub open spec fn positional_entry(f: PositionalField) -> Option<Shape> {
    if kept(f.attrs@) {
        match f.value {
            Some(v) => Some(v.deep_view()),
            None => None,
        }
    } else {
        None
    }
}

/// The encoding of a field list.
pub open spec fn fields_shape(f: Fields) -> Shape {
    match f {
        Fields::Named(fs) => Shape::List(fs@.filter_map(|x: NamedField| named_entry(x))),
        Fields::Positional(ps) => Shape::List(
            ps@.filter_map(|x: PositionalField| positional_entry(x)),
        ),
        Fields::Unit => Shape::Unit,
    }
}

/// The entry of a variant: `[name bytes, payload]`.
pub open spec fn variant_shape(v: Variant) -> Shape {
    Shape::List(seq![name_shape(v.name@), fields_shape(v.fields)])
}

/// The encoding of an enum: the list of its variant entries, in order.
pub open spec fn enum_shape(vs: Seq<Variant>) -> Shape {
    Shape::List(vs.map_values(|v: Variant| variant_shape(v)))
}

/// The attributes of each field, in field order.
pub open spec fn fields_attrs(f: Fields) -> Seq<Seq<Attribute>> {
    match f {
        Fields::Named(fs) => fs@.map_values(|x: NamedField| x.attrs@),
        Fields::Positional(ps) => ps@.map_values(|x: PositionalField| x.attrs@),
        Fields::Unit => Seq::empty(),
    }
}

/// The error of the first field, in order, whose attributes do not read.
pub open spec fn first_error(attrs: Seq<Seq<Attribute>>) -> Option<Seq<char>>
    decreases attrs.len(),
{
    if attrs.len() == 0 {
        None
    } else {
        match skip_result(attrs[0]) {
            Err(e) => Some(e),
            Ok(_) => first_error(attrs.drop_first()),
        }
    }
}

/// The first attribute error of an enum: variants in order, fields in order.
pub open spec fn enum_first_error(vs: Seq<Variant>) -> Option<Seq<char>>
    decreases vs.len(),
{
    if vs.len() == 0 {
        None
    } else {
        match first_error(fields_attrs(vs[0].fields)) {
            Some(e) => Some(e),
            None => enum_first_error(vs.drop_first()),
        }
    }
}

/// Some kept named field has no reflected value.
pub open spec fn named_missing(fs: Seq<NamedField>) -> bool {
    exists|j: int| 0 <= j < fs.len() && kept(fs[j].attrs@) && (#[trigger] fs[j]).value is None
}

/// Some kept positional field has no reflected value.
pub open spec fn positional_missing(ps: Seq<PositionalField>) -> bool {
    exists|j: int| 0 <= j < ps.len() && kept(ps[j].attrs@) && (#[trigger] ps[j]).value is None
}

/// Some kept field of the list has no reflected value.
pub open spec fn fields_missing(f: Fields) -> bool {
    match f {
        Fields::Named(fs) => named_missing(fs@),
        Fields::Positional(ps) => positional_missing(ps@),
        Fields::Unit => false,
    }
}

/// Some variant has a kept field without a reflected value.
pub open spec fn enum_missing(vs: Seq<Variant>) -> bool {
    exists|i: int| 0 <= i < vs.len() && fields_missing((#[trigger] vs[i]).fields)
}

/// The result `r` of encoding the field list `f` with `shape` its encoding:
/// the first attribute error, in field order; else `NotReflected` when a
/// kept field has no value; else the encoding.
pub open spec fn encoded(f: Fields, shape: Shape, r: Result<RuntimeValue, DeriveError>) -> bool {
    match first_error(fields_attrs(f)) {
        Some(e) => r matches Err(DeriveError::ExpectedSkip(m)) && m@ == e,
        None => if fields_missing(f) {
            r matches Err(DeriveError::NotReflected)
        } else {
            r matches Ok(v) && v.deep_view() == shape
        },
    }
}

/// The derivation's result for `d` is `r`: a union is refused; else the
/// first field (in order) whose attributes do not read makes it fail; else
/// a kept field without a reflected value makes it fail; else it gives the
/// encoding.
pub open spec fn derivation(d: Data, r: Result<RuntimeValue, DeriveError>) -> bool {
    match d {
        Data::Union => r matches Err(DeriveError::Union),
        Data::Struct(f) => encoded(f, fields_shape(f), r),
        Data::Enum(vs) => match enum_first_error(vs@) {
            Some(e) => r matches Err(DeriveError::ExpectedSkip(m)) && m@ == e,
            None => if enum_missing(vs@) {
                r matches Err(DeriveError::NotReflected)
            } else {
                r matches Ok(v) && v.deep_view() == enum_shape(vs@)
            },
        },
    }
}

/// The list of the UTF-8 bytes of `name`, each as a `Nat`.
pub fn name_value(name: &str) -> (r: RuntimeValue)
    ensures
        r.deep_view() == name_shape(name@),
{
    let bytes = name.as_bytes();
    let mut out: Vec<RuntimeValue> = Vec::new();
    let mut i: usize = 0;
    while i < bytes.len()
        invariant
            i <= bytes@.len(),
            bytes@ == encode_utf8(name@),
            out@.len() == i,
            forall|j: int| 0 <= j < i ==> #[trigger] out@[j].deep_view() == Shape::Nat(bytes@[j] as u64),
        decreases bytes@.len() - i,
    {
        out.push(RuntimeValue::Nat(bytes[i] as u64));
        i = i + 1;
    }
    proof {
        lemma_list_shape(out);
        assert(out.deep_view() =~= bytes@.map_values(|x: u8| Shape::Nat(x as u64)));
    }
    RuntimeValue::List(out)
}

fn named_skips(fs: &Vec<NamedField>) -> (r: Result<Vec<bool>, DeriveError>)
    ensures
        match first_error(fs@.map_values(|x: NamedField| x.attrs@)) {
            Some(e) => r matches Err(DeriveError::ExpectedSkip(m)) && m@ == e,
            None => r matches Ok(sk) && sk@.len() == fs@.len() && forall|j: int|
                0 <= j < fs@.len() ==> skip_result(#[trigger] fs@[j].attrs@) == Ok::<
                    bool,
                    Seq<char>,
                >(sk@[j]),
        },
{
    let ghost a = fs@.map_values(|x: NamedField| x.attrs@);
    let mut out: Vec<bool> = Vec::new();
    let mut i: usize = 0;
    assert(a.subrange(0, a.len() as int) =~= a);
    while i < fs.len()
        invariant
            i <= fs@.len(),
            a == fs@.map_values(|x: NamedField| x.attrs@),
            first_error(a) == first_error(a.subrange(i as int, a.len() as int)),
            out@.len() == i,
            forall|j: int|
                0 <= j < i ==> skip_result(#[trigger] fs@[j].attrs@) == Ok::<bool, Seq<char>>(
                    out@[j],
                ),
        decreases fs@.len() - i,
    {
        let ghost rest = a.subrange(i as int, a.len() as int);
        assert(rest.drop_first() =~= a.subrange(i + 1, a.len() as int));
        assert(rest[0] == fs@[i as int].attrs@);
        match has_skip_attr(&fs[i].attrs) {
            Err(e) => {
                return Err(e);
            },
            Ok(b) => {
                out.push(b);
            },
        }
        i = i + 1;
    }
    assert(a.subrange(a.len() as int, a.len() as int).len() == 0);
    Ok(out)
}

fn positional_skips(ps: &Vec<PositionalField>) -> (r: Result<Vec<bool>, DeriveError>)
    ensures
        match first_error(ps@.map_values(|x: PositionalField| x.attrs@)) {
            Some(e) => r matches Err(DeriveError::ExpectedSkip(m)) && m@ == e,
            None => r matches Ok(sk) && sk@.len() == ps@.len() && forall|j: int|
                0 <= j < ps@.len() ==> skip_result(#[trigger] ps@[j].attrs@) == Ok::<
                    bool,
                    Seq<char>,
                >(sk@[j]),
        },
{
    let ghost a = ps@.map_values(|x: PositionalField| x.attrs@);
    let mut out: Vec<bool> = Vec::new();
    let mut i: usize = 0;
    assert(a.subrange(0, a.len() as int) =~= a);
    while i < ps.len()
        invariant
            i <= ps@.len(),
            a == ps@.map_values(|x: PositionalField| x.attrs@),
            first_error(a) == first_error(a.subrange(i as int, a.len() as int)),
            out@.len() == i,
            forall|j: int|
                0 <= j < i ==> skip_result(#[trigger] ps@[j].attrs@) == Ok::<bool, Seq<char>>(
                    out@[j],
                ),
        decreases ps@.len() - i,
    {
        let ghost rest = a.subrange(i as int, a.len() as int);
        assert(rest.drop_first() =~= a.subrange(i + 1, a.len() as int));
        assert(rest[0] == ps@[i as int].attrs@);
        match has_skip_attr(&ps[i].attrs) {
            Err(e) => {
                return Err(e);
            },
            Ok(b) => {
                out.push(b);
            },
        }
        i = i + 1;
    }
    assert(a.subrange(a.len() as int, a.len() as int).len() == 0);
    Ok(out)
}

fn named_entries(fs: &Vec<NamedField>, skips: &Vec<bool>) -> (r: Result<Vec<RuntimeValue>, DeriveError>)
    requires
        skips@.len() == fs@.len(),
        forall|j: int|
            0 <= j < fs@.len() ==> skip_result(#[trigger] fs@[j].attrs@) == Ok::<bool, Seq<char>>(
                skips@[j],
            ),
    ensures
        named_missing(fs@) ==> r matches Err(DeriveError::NotReflected),
        !named_missing(fs@) ==> (r matches Ok(v) && v.deep_view() == fs@.filter_map(
            |x: NamedField| named_entry(x),
        )),
{
    let ghost f = |x: NamedField| named_entry(x);
    let mut out: Vec<RuntimeValue> = Vec::new();
    let mut i: usize = 0;
    while i < fs.len()
        invariant
            i <= fs@.len(),
            skips@.len() == fs@.len(),
            forall|j: int|
                0 <= j < fs@.len() ==> skip_result(#[trigger] fs@[j].attrs@) == Ok::<
                    bool,
                    Seq<char>,
                >(skips@[j]),
            forall|j: int| 0 <= j < i ==> !(kept(fs@[j].attrs@) && (#[trigger] fs@[j]).value is None),
            f == (|x: NamedField| named_entry(x)),
            out.deep_view() == fs@.take(i as int).filter_map(f),
        decreases fs@.len() - i,
    {
        let ghost before = out.deep_view();
        assert(fs@.take(i + 1).drop_last() =~= fs@.take(i as int));
        assert(skip_result(fs@[i as int].attrs@) == Ok::<bool, Seq<char>>(skips@[i as int]));
        let field = &fs[i];
        if !skips[i] {
            match &field.value {
                Some(v) => {
                    let mut pair: Vec<RuntimeValue> = Vec::new();
                    pair.push(name_value(field.name.as_str()));
                    pair.push(v.clone());
                    proof {
                        lemma_list_shape(pair);
                        assert(pair.deep_view() =~= seq![name_shape(field.name@), v.deep_view()]);
                    }
                    out.push(RuntimeValue::List(pair));
                    assert(out.deep_view() =~= before + seq![named_entry(fs@[i as int])->Some_0]);
                },
                None => {
                    assert(kept(fs@[i as int].attrs@) && fs@[i as int].value is None);
                    return Err(DeriveError::NotReflected);
                },
            }
        }
        i = i + 1;
    }
    assert(fs@.take(fs@.len() as int) =~= fs@);
    Ok(out)
}

fn positional_entries(ps: &Vec<PositionalField>, skips: &Vec<bool>) -> (r: Result<
    Vec<RuntimeValue>,
    DeriveError,
>)
    requires
        skips@.len() == ps@.len(),
        forall|j: int|
            0 <= j < ps@.len() ==> skip_result(#[trigger] ps@[j].attrs@) == Ok::<bool, Seq<char>>(
                skips@[j],
            ),
    ensures
        positional_missing(ps@) ==> r matches Err(DeriveError::NotReflected),
        !positional_missing(ps@) ==> (r matches Ok(v) && v.deep_view() == ps@.filter_map(
            |x: PositionalField| positional_entry(x),
        )),
{
    let ghost f = |x: PositionalField| positional_entry(x);
    let mut out: Vec<RuntimeValue> = Vec::new();
    let mut i: usize = 0;
    while i < ps.len()
        invariant
            i <= ps@.len(),
            skips@.len() == ps@.len(),
            forall|j: int|
                0 <= j < ps@.len() ==> skip_result(#[trigger] ps@[j].attrs@) == Ok::<
                    bool,
                    Seq<char>,
                >(skips@[j]),
            forall|j: int| 0 <= j < i ==> !(kept(ps@[j].attrs@) && (#[trigger] ps@[j]).value is None),
            f == (|x: PositionalField| positional_entry(x)),
            out.deep_view() == ps@.take(i as int).filter_map(f),
        decreases ps@.len() - i,
    {
        let ghost before = out.deep_view();
        assert(ps@.take(i + 1).drop_last() =~= ps@.take(i as int));
        assert(skip_result(ps@[i as int].attrs@) == Ok::<bool, Seq<char>>(skips@[i as int]));
        if !skips[i] {
            match &ps[i].value {
                Some(v) => {
                    out.push(v.clone());
                    assert(out.deep_view() =~= before + seq![positional_entry(ps@[i as int])->Some_0]);
                },
                None => {
                    assert(kept(ps@[i as int].attrs@) && ps@[i as int].value is None);
                    return Err(DeriveError::NotReflected);
                },
            }
        }
        i = i + 1;
    }
    assert(ps@.take(ps@.len() as int) =~= ps@);
    Ok(out)
}

/// `sk` gives, for each field of `f` in order, whether it is skipped.
spec fn skips_for(f: Fields, sk: Seq<bool>) -> bool {
    match f {
        Fields::Named(fs) => sk.len() == fs@.len() && forall|j: int|
            0 <= j < fs@.len() ==> skip_result(#[trigger] fs@[j].attrs@) == Ok::<bool, Seq<char>>(
                sk[j],
            ),
        Fields::Positional(ps) => sk.len() == ps@.len() && forall|j: int|
            0 <= j < ps@.len() ==> skip_result(#[trigger] ps@[j].attrs@) == Ok::<bool, Seq<char>>(
                sk[j],
            ),
        Fields::Unit => true,
    }
}

/// Reads the attributes of every field, in order: which fields are
/// skipped, or the first attribute error.
fn field_skips(fields: &Fields) -> (r: Result<Vec<bool>, DeriveError>)
    ensures
        match first_error(fields_attrs(*fields)) {
            Some(e) => r matches Err(DeriveError::ExpectedSkip(m)) && m@ == e,
            None => r matches Ok(sk) && skips_for(*fields, sk@),
        },
{
    match fields {
        Fields::Named(fs) => named_skips(fs),
        Fields::Positional(ps) => positional_skips(ps),
        Fields::Unit => Ok(Vec::new()),
    }
}

/// Encodes a field list whose attributes were read: `NotReflected` when a
/// kept field has no value, else the encoding.
fn field_entries(fields: &Fields, skips: &Vec<bool>) -> (r: Result<RuntimeValue, DeriveError>)
    requires
        skips_for(*fields, skips@),
    ensures
        fields_missing(*fields) ==> r matches Err(DeriveError::NotReflected),
        !fields_missing(*fields) ==> (r matches Ok(v) && v.deep_view() == fields_shape(*fields)),
{
    match fields {
        Fields::Named(fs) => {
            let entries = named_entries(fs, skips)?;
            proof {
                lemma_list_shape(entries);
            }
            Ok(RuntimeValue::List(entries))
        },
        Fields::Positional(ps) => {
            let entries = positional_entries(ps, skips)?;
            proof {
                lemma_list_shape(entries);
            }
            Ok(RuntimeValue::List(entries))
        },
        Fields::Unit => Ok(RuntimeValue::Unit),
    }
}

/// The encoding of a struct with the given fields: a list of
/// `[name bytes, value]` pairs for named fields, the list of the values for
/// positional fields (skipped fields left out in both), `Unit` for a unit
/// struct. Fails with the error of the first field, in order, whose
/// `reflect(...)` attributes hold something other than `skip`; else with
/// `NotReflected` when a kept field has no reflected value.
pub fn struct_value(fields: &Fields) -> (r: Result<RuntimeValue, DeriveError>)
    ensures
        encoded(*fields, fields_shape(*fields), r),
{
    let skips = field_skips(fields)?;
    field_entries(fields, &skips)
}

/// The entry of a variant whose attributes were read: `[name bytes,
/// payload]`, or `NotReflected`.
fn variant_entry(variant: &Variant, skips: &Vec<bool>) -> (r: Result<RuntimeValue, DeriveError>)
    requires
        skips_for(variant.fields, skips@),
    ensures
        fields_missing(variant.fields) ==> r matches Err(DeriveError::NotReflected),
        !fields_missing(variant.fields) ==> (r matches Ok(v) && v.deep_view() == variant_shape(
            *variant,
        )),
{
    let payload = field_entries(&variant.fields, skips)?;
    let mut pair: Vec<RuntimeValue> = Vec::new();
    pair.push(name_value(variant.name.as_str()));
    pair.push(payload);
    proof {
        lemma_list_shape(pair);
        assert(pair.deep_view() =~= seq![name_shape(variant.name@), fields_shape(variant.fields)]);
    }
    Ok(RuntimeValue::List(pair))
}

/// The entry of one variant: `[name bytes, payload]`, where the payload is
/// encoded like a struct with the variant's fields; fails as `struct_value`
/// does.
pub fn variant_value(variant: &Variant) -> (r: Result<RuntimeValue, DeriveError>)
    ensures
        encoded(variant.fields, variant_shape(*variant), r),
{
    let skips = field_skips(&variant.fields)?;
    variant_entry(variant, &skips)
}

/// The encoding of an enum: the list of its variant entries, in
/// declaration order. Fails with the first attribute error, variants in
/// order and fields in order; else with `NotReflected` when a kept field of
/// some variant has no reflected value.
pub fn enum_value(variants: &Vec<Variant>) -> (r: Result<RuntimeValue, DeriveError>)
    ensures
        match enum_first_error(variants@) {
            Some(e) => r matches Err(DeriveError::ExpectedSkip(m)) && m@ == e,
            None => if enum_missing(variants@) {
                r matches Err(DeriveError::NotReflected)
            } else {
                r matches Ok(v) && v.deep_view() == enum_shape(variants@)
            },
        },
{
    let ghost vs = variants@;
    let mut all: Vec<Vec<bool>> = Vec::new();
    let mut i: usize = 0;
    assert(vs.subrange(0, vs.len() as int) =~= vs);
    while i < variants.len()
        invariant
            i <= vs.len(),
            vs == variants@,
            enum_first_error(vs) == enum_first_error(vs.subrange(i as int, vs.len() as int)),
            all@.len() == i,
            forall|j: int| 0 <= j < i ==> skips_for(vs[j].fields, (#[trigger] all@[j])@),
        decreases vs.len() - i,
    {
        let ghost rest = vs.subrange(i as int, vs.len() as int);
        assert(rest.drop_first() =~= vs.subrange(i + 1, vs.len() as int));
        assert(rest[0] == vs[i as int]);
        let sk = field_skips(&variants[i].fields)?;
        all.push(sk);
        i = i + 1;
    }
    assert(vs.subrange(vs.len() as int, vs.len() as int).len() == 0);
    let mut out: Vec<RuntimeValue> = Vec::new();
    let mut i: usize = 0;
    while i < variants.len()
        invariant
            i <= vs.len(),
            vs == variants@,
            enum_first_error(vs) == None::<Seq<char>>,
            all@.len() == vs.len(),
            forall|j: int| 0 <= j < vs.len() ==> skips_for(vs[j].fields, (#[trigger] all@[j])@),
            out@.len() == i,
            forall|j: int| 0 <= j < i ==> #[trigger] out@[j].deep_view() == variant_shape(vs[j]),
            forall|j: int| 0 <= j < i ==> !fields_missing((#[trigger] vs[j]).fields),
        decreases vs.len() - i,
    {
        assert(skips_for(vs[i as int].fields, all@[i as int]@));
        let entry = match variant_entry(&variants[i], &all[i]) {
            Ok(e) => e,
            Err(e) => {
                assert(fields_missing(vs[i as int].fields));
                return Err(e);
            },
        };
        out.push(entry);
        i = i + 1;
    }
    proof {
        lemma_list_shape(out);
        assert(out.deep_view() =~= vs.map_values(|v: Variant| variant_shape(v)));
    }
    Ok(RuntimeValue::List(out))
}

/// The value a derived `Reflect` implementation gives the type: a union is
/// refused; else the first field, in order, whose `reflect(...)`
/// attributes hold something other than `skip` makes the derivation fail;
/// else a kept field without a reflected value does; else the encoding of
/// the struct or enum.
pub fn derived_value(data: &Data) -> (r: Result<RuntimeValue, DeriveError>)
    ensures
        derivation(*data, r),
{
    match data {
        Data::Struct(f) => struct_value(f),
        Data::Enum(vs) => enum_value(vs),
        Data::Union => Err(DeriveError::Union),
    }
}

/// What one `reflect(...)` attribute says: an error naming its first item
/// that is not `skip`, or else whether it names `skip` at all.
pub open spec fn reflect_attr_result(nested: Seq<Seq<char>>) -> Result<bool, Seq<char>>
    decreases nested.len(),
{
    if nested.len() == 0 {
        Ok(false)
    } else if nested[0] != "skip"@ {
        Err(nested[0])
    } else {
        match reflect_attr_result(nested.drop_first()) {
            Err(e) => Err(e),
            Ok(_) => Ok(true),
        }
    }
}

/// Whether a field with these attributes is skipped: the `reflect(...)`
/// attributes are read in order, the first that names `skip` decides, and
/// an item other than `skip` met before is an error.
pub open spec fn skip_result(attrs: Seq<Attribute>) -> Result<bool, Seq<char>>
    decreases attrs.len(),
{
    if attrs.len() == 0 {
        Ok(false)
    } else if attrs[0].path@ == "reflect"@ {
        match reflect_attr_result(attrs[0].nested@.map_values(|x: String| x@)) {
            Err(e) => Err(e),
            Ok(true) => Ok(true),
            Ok(false) => skip_result(attrs.drop_first()),
        }
    } else {
        skip_result(attrs.drop_first())
    }
}

fn reflect_attr(nested: &Vec<String>) -> (r: Result<bool, DeriveError>)
    ensures
        match reflect_attr_result(nested@.map_values(|x: String| x@)) {
            Ok(b) => r == Ok::<bool, DeriveError>(b),
            Err(e) => r matches Err(DeriveError::ExpectedSkip(m)) && m@ == e,
        },
{
    let ghost v = nested@.map_values(|x: String| x@);
    let skip_word = "skip".to_string();
    let mut i: usize = 0;
    while i < nested.len()
        invariant
            i <= nested@.len(),
            v == nested@.map_values(|x: String| x@),
            skip_word@ == "skip"@,
            forall|j: int| 0 <= j < i ==> v[j] == "skip"@,
        decreases nested@.len() - i,
    {
        if nested[i] != skip_word {
            proof {
                lemma_first_non_skip(v, i as int);
            }
            return Err(DeriveError::ExpectedSkip(nested[i].clone()));
        }
        i = i + 1;
    }
    proof {
        lemma_all_skip(v);
    }
    Ok(nested.len() > 0)
}

proof fn lemma_first_non_skip(v: Seq<Seq<char>>, i: int)
    requires
        0 <= i < v.len(),
        v[i] != "skip"@,
        forall|j: int| 0 <= j < i ==> v[j] == "skip"@,
    ensures
        reflect_attr_result(v) == Err::<bool, Seq<char>>(v[i]),
    decreases i,
{
    if i > 0 {
        lemma_first_non_skip(v.drop_first(), i - 1);
    }
}

proof fn lemma_all_skip(v: Seq<Seq<char>>)
    requires
        forall|j: int| 0 <= j < v.len() ==> v[j] == "skip"@,
    ensures
        reflect_attr_result(v) == Ok::<bool, Seq<char>>(v.len() > 0),
    decreases v.len(),
{
    if v.len() > 0 {
        lemma_all_skip(v.drop_first());
    }
}

/// Whether a field is marked to be skipped by `#[reflect(skip)]`: the
/// `reflect(...)` attributes are read in order and the first that names
/// `skip` decides; an item other than `skip` met before is an error.
pub fn has_skip_attr(attrs: &Vec<Attribute>) -> (r: Result<bool, DeriveError>)
    ensures
        match skip_result(attrs@) {
            Ok(b) => r == Ok::<bool, DeriveError>(b),
            Err(e) => r matches Err(DeriveError::ExpectedSkip(m)) && m@ == e,
        },
{
    let reflect_word = "reflect".to_string();
    let mut i: usize = 0;
    assert(attrs@.subrange(0, attrs@.len() as int) =~= attrs@);
    while i < attrs.len()
        invariant
            i <= attrs@.len(),
            reflect_word@ == "reflect"@,
            skip_result(attrs@) == skip_result(attrs@.subrange(i as int, attrs@.len() as int)),
        decreases attrs@.len() - i,
    {
        let ghost rest = attrs@.subrange(i as int, attrs@.len() as int);
        assert(rest.drop_first() =~= attrs@.subrange(i + 1, attrs@.len() as int));
        assert(rest[0] == attrs@[i as int]);
        if attrs[i].path == reflect_word {
            match reflect_attr(&attrs[i].nested) {
                Err(e) => {
                    return Err(e);
                },
                Ok(true) => {
                    return Ok(true);
                },
                Ok(false) => {},
            }
        }
        i = i + 1;
    }
    Ok(false)
}

/// The message of a derivation error.
pub open spec fn derive_message(e: DeriveError) -> Seq<char> {
    match e {
        DeriveError::Union => "Reflect cannot be derived for unions"@,
        DeriveError::ExpectedSkip(_) => "expected `skip`"@,
        DeriveError::NotReflected => "the type of a kept field does not implement `Reflect`"@,
    }
}

impl DeriveError {
    /// The error's message.
    pub fn message(&self) -> (r: String)
        ensures
            r@ == derive_message(*self),
    {
        match self {
            DeriveError::Union => "Reflect cannot be derived for unions".to_string(),
            DeriveError::ExpectedSkip(_) => "expected `skip`".to_string(),
            DeriveError::NotReflected => "the type of a kept field does not implement `Reflect`".to_string(),
        }
    }
}

} // verus!
