//! Dispatch tables for traits with const-generic methods.
//!
//! For each method of a trait that takes exactly one const generic
//! parameter, the generator writes a `reify_<method>` function that matches
//! a runtime value against a range and calls the matching instantiation,
//! and (for `&self` methods) a `NatCallback` wrapper struct. The trait is
//! described here by plain values: the text of its types and the names of
//! its parameters.

use crate::attr_args::{args_message, parse_range_args, range_args, ArgsError, Token};
use crate::text::{
    chars_of, decimal, pascal_case, pascal_case_of, push_char, push_decimal, push_decimal_succ,
};
use vstd::prelude::*;
use vstd::string::*;

verus! {

/// A generic parameter, as declared.
pub enum GenericParam {
    /// A lifetime: its declaration (`'a: 'b`) and its name (`'a`).
    Lifetime { decl: String, name: String },
    /// A type parameter: its declaration (`T: Clone`) and its name (`T`).
    Type { decl: String, ident: String },
    /// A const parameter `const ident: ty`.
    Const { ident: String, ty: String },
}

/// How a method takes `self`.
pub enum Receiver {
    /// `&self`
    Shared,
    /// `&mut self`
    Mut,
}

/// A parameter of a method other than `self`.
pub struct Param {
    /// The parameter's name, or `None` when its pattern is not a plain name.
    pub name: Option<String>,
    /// The text of its type.
    pub ty: String,
}

/// The signature of a trait method.
pub struct MethodSig {
    /// The method's name.
    pub name: String,
    /// Its generic parameters, in order.
    pub generics: Vec<GenericParam>,
    /// How it takes `self`, or `None` for an associated function.
    pub receiver: Option<Receiver>,
    /// Its other parameters, in order.
    pub params: Vec<Param>,
    /// The text of its return type, or `None` for `()`.
    pub output: Option<String>,
}

/// A method that gets a dispatch function.
pub struct ConstMethod {
    /// The method's name.
    pub name: String,
    /// The type of its const generic parameter.
    pub const_param_ty: String,
    /// Whether it takes `&mut self`.
    pub is_mut: bool,
    /// Its other parameters as `(name, type)`; a parameter whose pattern is
    /// not a plain name is called `_arg`.
    pub params: Vec<(String, String)>,
    /// Its lifetime parameters, as declared.
    pub lifetime_params: Vec<String>,
    /// Its type parameters as `(declaration, name)`.
    pub type_params: Vec<(String, String)>,
    /// The text of its return type, or `None` for `()`.
    pub return_type: Option<String>,
}

/// Why a trait cannot get dispatch tables.
#[derive(Debug, PartialEq, Eq)]
pub enum ReifiableError {
    /// The method has more than one const generic parameter.
    MultipleConstParams { method: String },
    /// The method takes no `self`.
    MissingReceiver { method: String },
    /// The method's return type mentions its const generic parameter.
    ReturnDependsOnConst { method: String, param: String },
    /// The range would need more than 1024 instantiations per method.
    RangeTooLarge { end: u64 },
    /// The attribute's arguments are not `range = START..=END`.
    Args(ArgsError),
}

/// Whether `c` is alphanumeric (`char::is_alphanumeric`: the Unicode
/// `Alphabetic` or `Numeric` property).
pub uninterp spec fn alphanumeric(c: char) -> bool;

/// `char::is_alphanumeric`. Its result is named, not stated: it is a lookup
/// in the Unicode tables.
#[verifier::external_body]
fn is_alphanumeric(c: char) -> (r: bool)
    ensures
        r == alphanumeric(c),
{
    c.is_alphanumeric()
}

/// A character that separates words of a type's text: neither
/// alphanumeric nor `_`.
pub open spec fn is_separator(c: char) -> bool {
    !alphanumeric(c) && c != '_'
}

/// `s[i..j]` is a word of `s`: a maximal run without separators.
pub open spec fn word_at(s: Seq<char>, i: int, j: int) -> bool {
    &&& 0 <= i <= j <= s.len()
    &&& i == 0 || is_separator(s[i - 1])
    &&& j == s.len() || is_separator(s[j])
    &&& forall|k: int| i <= k < j ==> !is_separator(#[trigger] s[k])
}

/// `w` is one of the words of `s`.
pub open spec fn mentions(s: Seq<char>, w: Seq<char>) -> bool {
    exists|i: int, j: int| word_at(s, i, j) && #[trigger] s.subrange(i, j) == w
}

fn segment_equals(s: &Vec<char>, i: usize, j: usize, w: &Vec<char>) -> (r: bool)
    requires
        i <= j <= s@.len(),
    ensures
        r == (s@.subrange(i as int, j as int) == w@),
{
    if j - i != w.len() {
        assert(s@.subrange(i as int, j as int).len() != w@.len());
        return false;
    }
    let mut k: usize = 0;
    while k < w.len()
        invariant
            i <= j <= s@.len(),
            j - i == w@.len(),
            k <= w@.len(),
            forall|m: int| 0 <= m < k ==> s@[i + m] == w@[m],
        decreases w@.len() - k,
    {
        if s[i + k] != w[k] {
            assert(s@.subrange(i as int, j as int)[k as int] != w@[k as int]);
            return false;
        }
        k = k + 1;
    }
    assert(s@.subrange(i as int, j as int) =~= w@);
    true
}

/// Whether `ident` occurs as a word of the type text `ty`, words being the
/// runs between characters that are neither alphanumeric nor `_` (so it
/// finds `N` in `[u8; N]` and `Foo<N>`).
pub fn type_mentions_ident(ty: &str, ident: &str) -> (r: bool)
    ensures
        r == mentions(ty@, ident@),
{
    let s = chars_of(ty);
    let w = chars_of(ident);
    let ghost sv = s@;
    let mut start: usize = 0;
    let mut k: usize = 0;
    while k < s.len()
        invariant
            sv == s@,
            sv == ty@,
            w@ == ident@,
            start <= k <= sv.len(),
            start == 0 || is_separator(sv[start - 1]),
            forall|m: int| start <= m < k ==> !is_separator(#[trigger] sv[m]),
            forall|i: int, j: int|
                word_at(sv, i, j) && j < k ==> #[trigger] sv.subrange(i, j) != w@,
        decreases sv.len() - k,
    {
        let c = s[k];
        if !is_alphanumeric(c) && c != '_' {
            let found = segment_equals(&s, start, k, &w);
            if found {
                assert(word_at(sv, start as int, k as int));
                return true;
            }
            assert forall|i: int, j: int| word_at(sv, i, j) && j < k + 1 implies #[trigger] sv.subrange(
                i,
                j,
            ) != w@ by {
                if j == k {
                    if i < start {
                        assert(!is_separator(sv[start - 1]));
                    } else if i > start {
                        assert(!is_separator(sv[i - 1]));
                    }
                }
            }
            start = k + 1;
        }
        k = k + 1;
    }
    let found = segment_equals(&s, start, k, &w);
    if found {
        assert(word_at(sv, start as int, k as int));
        return true;
    }
    assert forall|i: int, j: int| word_at(sv, i, j) implies #[trigger] sv.subrange(i, j) != w@ by {
        if j == k {
            if i < start {
                assert(!is_separator(sv[start - 1]));
            } else if i > start {
                assert(!is_separator(sv[i - 1]));
            }
        }
    }
    false
}

/// The views of a list of strings.
pub open spec fn strs_view(v: Seq<String>) -> Seq<Seq<char>> {
    v.map_values(|s: String| s@)
}

/// The views of a list of string pairs.
pub open spec fn pairs_view(v: Seq<(String, String)>) -> Seq<(Seq<char>, Seq<char>)> {
    v.map_values(|p: (String, String)| (p.0@, p.1@))
}

/// The view of an optional string.
pub open spec fn opt_view(o: Option<String>) -> Option<Seq<char>> {
    match o {
        Some(s) => Some(s@),
        None => None,
    }
}

/// A const parameter as `(name, type)`.
pub open spec fn const_entry(p: GenericParam) -> Option<(Seq<char>, Seq<char>)> {
    match p {
        GenericParam::Const { ident, ty } => Some((ident@, ty@)),
        _ => None,
    }
}

/// A lifetime parameter's declaration.
pub open spec fn lifetime_entry(p: GenericParam) -> Option<Seq<char>> {
    match p {
        GenericParam::Lifetime { decl, name } => Some(decl@),
        _ => None,
    }
}

/// A type parameter as `(declaration, name)`.
pub open spec fn type_entry(p: GenericParam) -> Option<(Seq<char>, Seq<char>)> {
    match p {
        GenericParam::Type { decl, ident } => Some((decl@, ident@)),
        _ => None,
    }
}

/// The const parameters among `g`, in order.
pub open spec fn const_params_of(g: Seq<GenericParam>) -> Seq<(Seq<char>, Seq<char>)> {
    g.filter_map(|p: GenericParam| const_entry(p))
}

/// A parameter as `(name, type)`, with `_arg` for a pattern that is not a
/// plain name.
pub open spec fn param_entry(p: Param) -> (Seq<char>, Seq<char>) {
    (
        match p.name {
            Some(n) => n@,
            None => "_arg"@,
        },
        p.ty@,
    )
}

/// `m` is the dispatch description of `sig`.
pub open spec fn describes(m: ConstMethod, sig: MethodSig) -> bool {
    &&& m.name@ == sig.name@
    &&& m.const_param_ty@ == const_params_of(sig.generics@)[0].1
    &&& m.is_mut == (sig.receiver == Some(Receiver::Mut))
    &&& pairs_view(m.params@) == sig.params@.map_values(|p: Param| param_entry(p))
    &&& strs_view(m.lifetime_params@) == sig.generics@.filter_map(
        |p: GenericParam| lifetime_entry(p),
    )
    &&& pairs_view(m.type_params@) == sig.generics@.filter_map(|p: GenericParam| type_entry(p))
    &&& opt_view(m.return_type) == opt_view(sig.output)
}

fn clone_opt(o: &Option<String>) -> (r: Option<String>)
    ensures
        opt_view(r) == opt_view(*o),
{
    match o {
        Some(s) => Some(s.clone()),
        None => None,
    }
}

fn const_params(g: &Vec<GenericParam>) -> (r: Vec<(String, String)>)
    ensures
        pairs_view(r@) == const_params_of(g@),
{
    let ghost f = |p: GenericParam| const_entry(p);
    let mut out: Vec<(String, String)> = Vec::new();
    let mut i: usize = 0;
    while i < g.len()
        invariant
            i <= g@.len(),
            f == (|p: GenericParam| const_entry(p)),
            pairs_view(out@) == g@.take(i as int).filter_map(f),
        decreases g@.len() - i,
    {
        let ghost before = out@;
        assert(g@.take(i + 1).drop_last() =~= g@.take(i as int));
        match &g[i] {
            GenericParam::Const { ident, ty } => {
                out.push((ident.clone(), ty.clone()));
                assert(pairs_view(out@) =~= pairs_view(before).push((ident@, ty@)));
            },
            _ => {},
        }
        i = i + 1;
    }
    assert(g@.take(g@.len() as int) =~= g@);
    out
}

fn lifetime_params(g: &Vec<GenericParam>) -> (r: Vec<String>)
    ensures
        strs_view(r@) == g@.filter_map(|p: GenericParam| lifetime_entry(p)),
{
    let ghost f = |p: GenericParam| lifetime_entry(p);
    let mut out: Vec<String> = Vec::new();
    let mut i: usize = 0;
    while i < g.len()
        invariant
            i <= g@.len(),
            f == (|p: GenericParam| lifetime_entry(p)),
            strs_view(out@) == g@.take(i as int).filter_map(f),
        decreases g@.len() - i,
    {
        let ghost before = out@;
        assert(g@.take(i + 1).drop_last() =~= g@.take(i as int));
        match &g[i] {
            GenericParam::Lifetime { decl, name } => {
                out.push(decl.clone());
                assert(strs_view(out@) =~= strs_view(before).push(decl@));
            },
            _ => {},
        }
        i = i + 1;
    }
    assert(g@.take(g@.len() as int) =~= g@);
    out
}

fn type_params(g: &Vec<GenericParam>) -> (r: Vec<(String, String)>)
    ensures
        pairs_view(r@) == g@.filter_map(|p: GenericParam| type_entry(p)),
{
    let ghost f = |p: GenericParam| type_entry(p);
    let mut out: Vec<(String, String)> = Vec::new();
    let mut i: usize = 0;
    while i < g.len()
        invariant
            i <= g@.len(),
            f == (|p: GenericParam| type_entry(p)),
            pairs_view(out@) == g@.take(i as int).filter_map(f),
        decreases g@.len() - i,
    {
        let ghost before = out@;
        assert(g@.take(i + 1).drop_last() =~= g@.take(i as int));
        match &g[i] {
            GenericParam::Type { decl, ident } => {
                out.push((decl.clone(), ident.clone()));
                assert(pairs_view(out@) =~= pairs_view(before).push((decl@, ident@)));
            },
            _ => {},
        }
        i = i + 1;
    }
    assert(g@.take(g@.len() as int) =~= g@);
    out
}

fn value_params(ps: &Vec<Param>) -> (r: Vec<(String, String)>)
    ensures
        pairs_view(r@) == ps@.map_values(|p: Param| param_entry(p)),
{
    let mut out: Vec<(String, String)> = Vec::new();
    let mut i: usize = 0;
    while i < ps.len()
        invariant
            i <= ps@.len(),
            out@.len() == i,
            forall|j: int| 0 <= j < i ==> (#[trigger] out@[j]).0@ == param_entry(ps@[j]).0
                && out@[j].1@ == param_entry(ps@[j]).1,
        decreases ps@.len() - i,
    {
        let p = &ps[i];
        let name = match &p.name {
            Some(n) => n.clone(),
            None => "_arg".to_string(),
        };
        out.push((name, p.ty.clone()));
        i = i + 1;
    }
    assert(pairs_view(out@) =~= ps@.map_values(|p: Param| param_entry(p)));
    out
}

/// What the generator makes of a method.
pub enum MethodOutcome {
    /// No const generic parameter: the method is left alone.
    Skipped,
    /// More than one const generic parameter.
    MultipleConstParams,
    /// No `self`.
    MissingReceiver,
    /// The return type mentions the const parameter with this name.
    ReturnDependsOnConst(Seq<char>),
    /// The method gets a dispatch function.
    Dispatched,
}

/// The generator's decision for a method, checked in this order: no const
/// parameter, more than one, no receiver, a return type that mentions it.
pub open spec fn outcome(sig: MethodSig) -> MethodOutcome {
    let cps = const_params_of(sig.generics@);
    if cps.len() == 0 {
        MethodOutcome::Skipped
    } else if cps.len() > 1 {
        MethodOutcome::MultipleConstParams
    } else if sig.receiver is None {
        MethodOutcome::MissingReceiver
    } else if sig.output is Some && mentions(sig.output->0@, cps[0].0) {
        MethodOutcome::ReturnDependsOnConst(cps[0].0)
    } else {
        MethodOutcome::Dispatched
    }
}

/// `e` is the error the generator reports for `sig`.
pub open spec fn error_for(e: ReifiableError, sig: MethodSig) -> bool {
    match outcome(sig) {
        MethodOutcome::MultipleConstParams => e matches ReifiableError::MultipleConstParams {
            method,
        } && method@ == sig.name@,
        MethodOutcome::MissingReceiver => e matches ReifiableError::MissingReceiver { method }
            && method@ == sig.name@,
        MethodOutcome::ReturnDependsOnConst(p) => e matches ReifiableError::ReturnDependsOnConst {
            method,
            param,
        } && method@ == sig.name@ && param@ == p,
        _ => false,
    }
}

/// Decide whether a method gets a dispatch function: `None` when it has no
/// const generic parameter; an error when it has more than one, takes no
/// `self`, or returns a type that mentions its const parameter; otherwise
/// its dispatch description.
pub fn analyze_method(sig: &MethodSig) -> (r: Option<Result<ConstMethod, ReifiableError>>)
    ensures
        outcome(*sig) is Skipped ==> r is None,
        outcome(*sig) is Dispatched ==> (r matches Some(Ok(m)) && describes(m, *sig)),
        !(outcome(*sig) is Skipped) && !(outcome(*sig) is Dispatched) ==> (r matches Some(Err(e))
            && error_for(e, *sig)),
{
    let cps = const_params(&sig.generics);
    if cps.len() == 0 {
        return None;
    }
    if cps.len() > 1 {
        return Some(Err(ReifiableError::MultipleConstParams { method: sig.name.clone() }));
    }
    let is_mut = match &sig.receiver {
        Some(Receiver::Mut) => true,
        Some(Receiver::Shared) => false,
        None => {
            return Some(Err(ReifiableError::MissingReceiver { method: sig.name.clone() }));
        },
    };
    assert(pairs_view(cps@)[0] == (cps@[0].0@, cps@[0].1@));
    match &sig.output {
        Some(ty) => {
            if type_mentions_ident(ty.as_str(), cps[0].0.as_str()) {
                return Some(
                    Err(
                        ReifiableError::ReturnDependsOnConst {
                            method: sig.name.clone(),
                            param: cps[0].0.clone(),
                        },
                    ),
                );
            }
        },
        None => {},
    }
    let m = ConstMethod {
        name: sig.name.clone(),
        const_param_ty: cps[0].1.clone(),
        is_mut,
        params: value_params(&sig.params),
        lifetime_params: lifetime_params(&sig.generics),
        type_params: type_params(&sig.generics),
        return_type: clone_opt(&sig.output),
    };
    Some(Ok(m))
}

/// `items` with `sep` between consecutive items.
pub open spec fn join(items: Seq<Seq<char>>, sep: Seq<char>) -> Seq<char>
    decreases items.len(),
{
    if items.len() == 0 {
        Seq::empty()
    } else if items.len() == 1 {
        items[0]
    } else {
        join(items.drop_last(), sep) + sep + items.last()
    }
}

/// The concatenation of `items`.
pub open spec fn concat(items: Seq<Seq<char>>) -> Seq<char>
    decreases items.len(),
{
    if items.len() == 0 {
        Seq::empty()
    } else {
        concat(items.drop_last()) + items.last()
    }
}

/// The description of a trait whose const-generic methods get dispatch
/// tables.
pub struct TraitDef {
    /// The trait's source text, emitted unchanged in front of what is
    /// generated for it.
    pub source: String,
    /// The trait's name.
    pub name: String,
    /// Its visibility as written (`pub`, `pub(crate)`, or empty).
    pub vis: String,
    /// Its generic parameters, in order.
    pub generics: Vec<GenericParam>,
    /// Its methods, in order.
    pub methods: Vec<MethodSig>,
}

/// A generic parameter as declared.
pub open spec fn generic_decl(p: GenericParam) -> Seq<char> {
    match p {
        GenericParam::Lifetime { decl, name } => decl@,
        GenericParam::Type { decl, ident } => decl@,
        GenericParam::Const { ident, ty } => "const "@ + ident@ + ": "@ + ty@,
    }
}

/// A generic parameter as an argument.
pub open spec fn generic_arg(p: GenericParam) -> Seq<char> {
    match p {
        GenericParam::Lifetime { decl, name } => name@,
        GenericParam::Type { decl, ident } => ident@,
        GenericParam::Const { ident, ty } => ident@,
    }
}

/// A generic parameter is passed on by its name alone: a lifetime by its
/// name (`'a`, without its bounds), a type parameter by its identifier
/// (`T`, without its bounds), a const parameter by its identifier (`N`,
/// without its type).
pub proof fn lemma_generic_arg_is_name(p: GenericParam)
    ensures
        p matches GenericParam::Lifetime { decl, name } ==> generic_arg(p) == name@,
        p matches GenericParam::Type { decl, ident } ==> generic_arg(p) == ident@,
        p matches GenericParam::Const { ident, ty } ==> generic_arg(p) == ident@,
{
}

/// The bound that names a generic trait lists the names of its generic
/// parameters, in order: for `args` the names of `generics` (each lifetime's
/// name, each type or const parameter's identifier), the bound is
/// `Name<args[0], args[1], ...>`.
pub proof fn lemma_trait_bound_names(
    trait_name: Seq<char>,
    generics: Seq<GenericParam>,
    args: Seq<Seq<char>>,
)
    requires
        generics.len() > 0,
        args.len() == generics.len(),
        forall|i: int|
            0 <= i < generics.len() ==> match #[trigger] generics[i] {
                GenericParam::Lifetime { decl, name } => args[i] == name@,
                GenericParam::Type { decl, ident } => args[i] == ident@,
                GenericParam::Const { ident, ty } => args[i] == ident@,
            },
    ensures
        trait_bound(trait_name, generics) == trait_name + "<"@ + join(args, ", "@) + ">"@,
{
    assert(generics.map_values(|p: GenericParam| generic_arg(p)) =~= args);
}

/// The bound naming the trait: `Name` or `Name<args>`.
pub open spec fn trait_bound(name: Seq<char>, generics: Seq<GenericParam>) -> Seq<char> {
    if generics.len() == 0 {
        name
    } else {
        name + "<"@ + join(generics.map_values(|p: GenericParam| generic_arg(p)), ", "@) + ">"@
    }
}

/// The visibility followed by a space, or nothing.
pub open spec fn vis_prefix(vis: Seq<char>) -> Seq<char> {
    if vis.len() == 0 {
        Seq::empty()
    } else {
        vis + " "@
    }
}

/// `, T1, T2` for the method's type parameters.
pub open spec fn type_args_text(type_params: Seq<(Seq<char>, Seq<char>)>) -> Seq<char> {
    concat(type_params.map_values(|p: (Seq<char>, Seq<char>)| ", "@ + p.1))
}

/// The generic parameters of a dispatch function: the method's lifetimes,
/// the trait's parameters, the method's type parameters, and the
/// implementor `__ReifyT`.
pub open spec fn dispatch_generics(
    t_name: Seq<char>,
    t_generics: Seq<GenericParam>,
    m: ConstMethod,
) -> Seq<Seq<char>> {
    strs_view(m.lifetime_params@) + t_generics.map_values(|p: GenericParam| generic_decl(p))
        + pairs_view(m.type_params@).map_values(|p: (Seq<char>, Seq<char>)| p.0) + seq![
        "__ReifyT: "@ + trait_bound(t_name, t_generics),
    ]
}

/// One arm of a dispatch match: the value `n` calls the instantiation `n`.
pub open spec fn arm_text(m: ConstMethod, n: u64) -> Seq<char> {
    "        "@ + decimal(n as nat) + " => obj."@ + m.name@ + "::<"@ + decimal(n as nat)
        + type_args_text(pairs_view(m.type_params@)) + ">("@ + join(
        pairs_view(m.params@).map_values(|p: (Seq<char>, Seq<char>)| p.0),
        ", "@,
    ) + "),\n"@
}

/// The values `start..=end`.
pub open spec fn range_values(start: u64, end: u64) -> Seq<u64> {
    if start <= end {
        Seq::new((end - start + 1) as nat, |k: int| (start + k) as u64)
    } else {
        Seq::empty()
    }
}

/// The source of the dispatch function for `m`: it matches `val` against
/// `start..=end`, calls the matching instantiation of the method on `obj`,
/// and panics on any other value.
pub open spec fn dispatch_text(
    t_name: Seq<char>,
    t_vis: Seq<char>,
    t_generics: Seq<GenericParam>,
    m: ConstMethod,
    start: u64,
    end: u64,
) -> Seq<char> {
    vis_prefix(t_vis) + "fn reify_"@ + m.name@ + "<"@ + join(
        dispatch_generics(t_name, t_generics, m),
        ", "@,
    ) + ">(val: "@ + m.const_param_ty@ + (if m.is_mut {
        ", obj: &mut __ReifyT"@
    } else {
        ", obj: &__ReifyT"@
    }) + concat(
        pairs_view(m.params@).map_values(|p: (Seq<char>, Seq<char>)| ", "@ + p.0 + ": "@ + p.1),
    ) + ")"@ + (match m.return_type {
        Some(r) => " -> "@ + r@,
        None => Seq::empty(),
    }) + " {\n    match val {\n"@ + concat(range_values(start, end).map_values(|n: u64| arm_text(m, n)))
        + "        other => panic!(\"#[reifiable] dispatch for "@ + t_name + "::"@ + m.name@
        + ": value {} out of range 0..={}\", other, "@ + decimal(end as nat) + "),\n    }\n}\n"@
}

fn push_joined(out: &mut String, items: &Vec<String>, sep: &str)
    ensures
        final(out)@ == old(out)@ + join(strs_view(items@), sep@),
{
    let mut i: usize = 0;
    while i < items.len()
        invariant
            i <= items@.len(),
            out@ == old(out)@ + join(strs_view(items@.take(i as int)), sep@),
        decreases items@.len() - i,
    {
        let ghost before = out@;
        assert(strs_view(items@.take(i + 1)).drop_last() =~= strs_view(items@.take(i as int)));
        if i > 0 {
            out.append(sep);
        }
        out.append(items[i].as_str());
        proof {
            let xs = strs_view(items@.take(i + 1));
            assert(xs.last() == items@[i as int]@);
            if i == 0 {
                assert(xs.len() == 1);
                assert(out@ =~= old(out)@ + join(xs, sep@));
            } else {
                assert(out@ =~= old(out)@ + join(xs, sep@));
            }
        }
        i = i + 1;
    }
    assert(items@.take(items@.len() as int) =~= items@);
}

fn push_concat(out: &mut String, items: &Vec<String>)
    ensures
        final(out)@ == old(out)@ + concat(strs_view(items@)),
{
    let mut i: usize = 0;
    while i < items.len()
        invariant
            i <= items@.len(),
            out@ == old(out)@ + concat(strs_view(items@.take(i as int))),
        decreases items@.len() - i,
    {
        assert(strs_view(items@.take(i + 1)).drop_last() =~= strs_view(items@.take(i as int)));
        out.append(items[i].as_str());
        assert(out@ =~= old(out)@ + concat(strs_view(items@.take(i + 1))));
        i = i + 1;
    }
    assert(items@.take(items@.len() as int) =~= items@);
}

fn concat3(a: &str, b: &str, c: &str) -> (r: String)
    ensures
        r@ == a@ + b@ + c@,
{
    let mut out = String::new();
    out.append(a);
    out.append(b);
    out.append(c);
    assert(out@ =~= a@ + b@ + c@);
    out
}

fn decl_of(p: &GenericParam) -> (r: String)
    ensures
        r@ == generic_decl(*p),
{
    match p {
        GenericParam::Lifetime { decl, name } => decl.clone(),
        GenericParam::Type { decl, ident } => decl.clone(),
        GenericParam::Const { ident, ty } => {
            let mut out = String::new();
            out.append("const ");
            out.append(ident.as_str());
            out.append(": ");
            out.append(ty.as_str());
            assert(out@ =~= "const "@ + ident@ + ": "@ + ty@);
            out
        },
    }
}

fn arg_of(p: &GenericParam) -> (r: String)
    ensures
        r@ == generic_arg(*p),
{
    match p {
        GenericParam::Lifetime { decl, name } => name.clone(),
        GenericParam::Type { decl, ident } => ident.clone(),
        GenericParam::Const { ident, ty } => ident.clone(),
    }
}

fn bound_of(name: &String, generics: &Vec<GenericParam>) -> (r: String)
    ensures
        r@ == trait_bound(name@, generics@),
{
    let mut out = name.clone();
    if generics.len() == 0 {
        return out;
    }
    let mut args: Vec<String> = Vec::new();
    let mut i: usize = 0;
    while i < generics.len()
        invariant
            i <= generics@.len(),
            args@.len() == i,
            forall|j: int| 0 <= j < i ==> (#[trigger] args@[j])@ == generic_arg(generics@[j]),
        decreases generics@.len() - i,
    {
        args.push(arg_of(&generics[i]));
        i = i + 1;
    }
    assert(strs_view(args@) =~= generics@.map_values(|p: GenericParam| generic_arg(p)));
    out.append("<");
    push_joined(&mut out, &args, ", ");
    out.append(">");
    out
}

fn type_args(type_params: &Vec<(String, String)>) -> (r: String)
    ensures
        r@ == type_args_text(pairs_view(type_params@)),
{
    let mut parts: Vec<String> = Vec::new();
    let mut i: usize = 0;
    while i < type_params.len()
        invariant
            i <= type_params@.len(),
            parts@.len() == i,
            forall|j: int| 0 <= j < i ==> (#[trigger] parts@[j])@ == ", "@ + type_params@[j].1@,
        decreases type_params@.len() - i,
    {
        let mut part = String::new();
        part.append(", ");
        part.append(type_params[i].1.as_str());
        parts.push(part);
        i = i + 1;
    }
    assert(strs_view(parts@) =~= pairs_view(type_params@).map_values(
        |p: (Seq<char>, Seq<char>)| ", "@ + p.1,
    ));
    let mut out = String::new();
    push_concat(&mut out, &parts);
    assert(out@ =~= type_args_text(pairs_view(type_params@)));
    out
}

fn param_names(params: &Vec<(String, String)>) -> (r: Vec<String>)
    ensures
        strs_view(r@) == pairs_view(params@).map_values(|p: (Seq<char>, Seq<char>)| p.0),
{
    let mut out: Vec<String> = Vec::new();
    let mut i: usize = 0;
    while i < params.len()
        invariant
            i <= params@.len(),
            out@.len() == i,
            forall|j: int| 0 <= j < i ==> (#[trigger] out@[j])@ == params@[j].0@,
        decreases params@.len() - i,
    {
        out.push(params[i].0.clone());
        i = i + 1;
    }
    assert(strs_view(out@) =~= pairs_view(params@).map_values(|p: (Seq<char>, Seq<char>)| p.0));
    out
}

fn arm(m: &ConstMethod, n: u64, targs: &String, names: &Vec<String>) -> (r: String)
    requires
        targs@ == type_args_text(pairs_view(m.type_params@)),
        strs_view(names@) == pairs_view(m.params@).map_values(|p: (Seq<char>, Seq<char>)| p.0),
    ensures
        r@ == arm_text(*m, n),
{
    let mut out = String::new();
    out.append("        ");
    push_decimal(&mut out, n);
    out.append(" => obj.");
    out.append(m.name.as_str());
    out.append("::<");
    push_decimal(&mut out, n);
    out.append(targs.as_str());
    out.append(">(");
    push_joined(&mut out, names, ", ");
    out.append("),\n");
    assert(out@ =~= arm_text(*m, n));
    out
}

fn dispatch_generic_list(t: &TraitDef, m: &ConstMethod, bound: &String) -> (r: Vec<String>)
    requires
        bound@ == trait_bound(t.name@, t.generics@),
    ensures
        strs_view(r@) == dispatch_generics(t.name@, t.generics@, *m),
{
    let mut out: Vec<String> = Vec::new();
    let mut i: usize = 0;
    while i < m.lifetime_params.len()
        invariant
            i <= m.lifetime_params@.len(),
            strs_view(out@) == strs_view(m.lifetime_params@.take(i as int)),
        decreases m.lifetime_params@.len() - i,
    {
        let ghost before = out@;
        let x = m.lifetime_params[i].clone();
        out.push(x);
        assert(strs_view(out@) =~= strs_view(before).push(x@));
        assert(strs_view(m.lifetime_params@.take(i + 1)) =~= strs_view(
            m.lifetime_params@.take(i as int),
        ).push(x@));
        i = i + 1;
    }
    assert(m.lifetime_params@.take(m.lifetime_params@.len() as int) =~= m.lifetime_params@);
    let ghost a = strs_view(out@);
    let mut j: usize = 0;
    while j < t.generics.len()
        invariant
            j <= t.generics@.len(),
            strs_view(out@) == a + t.generics@.take(j as int).map_values(
                |p: GenericParam| generic_decl(p),
            ),
        decreases t.generics@.len() - j,
    {
        let ghost before = out@;
        let x = decl_of(&t.generics[j]);
        out.push(x);
        assert(strs_view(out@) =~= strs_view(before).push(x@));
        assert(t.generics@.take(j + 1).map_values(|p: GenericParam| generic_decl(p))
            =~= t.generics@.take(j as int).map_values(|p: GenericParam| generic_decl(p)).push(x@));
        j = j + 1;
    }
    assert(t.generics@.take(t.generics@.len() as int) =~= t.generics@);
    let ghost b = strs_view(out@);
    let mut k: usize = 0;
    while k < m.type_params.len()
        invariant
            k <= m.type_params@.len(),
            strs_view(out@) == b + pairs_view(m.type_params@.take(k as int)).map_values(
                |p: (Seq<char>, Seq<char>)| p.0,
            ),
        decreases m.type_params@.len() - k,
    {
        let ghost before = out@;
        let x = m.type_params[k].0.clone();
        out.push(x);
        assert(strs_view(out@) =~= strs_view(before).push(x@));
        assert(pairs_view(m.type_params@.take(k + 1)).map_values(|p: (Seq<char>, Seq<char>)| p.0)
            =~= pairs_view(m.type_params@.take(k as int)).map_values(
            |p: (Seq<char>, Seq<char>)| p.0,
        ).push(x@));
        k = k + 1;
    }
    assert(m.type_params@.take(m.type_params@.len() as int) =~= m.type_params@);
    let ghost c = strs_view(out@);
    out.push(concat3("__ReifyT: ", bound.as_str(), ""));
    assert(strs_view(out@) =~= c + seq!["__ReifyT: "@ + trait_bound(t.name@, t.generics@)]) by {
        assert(""@.len() == 0) by {
            reveal_strlit("");
        }
        assert("__ReifyT: "@ + bound@ + ""@ =~= "__ReifyT: "@ + bound@);
    }
    assert(strs_view(out@) =~= dispatch_generics(t.name@, t.generics@, *m));
    out
}

fn param_decls(params: &Vec<(String, String)>) -> (r: String)
    ensures
        r@ == concat(
            pairs_view(params@).map_values(|p: (Seq<char>, Seq<char>)| ", "@ + p.0 + ": "@ + p.1),
        ),
{
    let mut out = String::new();
    let mut i: usize = 0;
    while i < params.len()
        invariant
            i <= params@.len(),
            out@ == concat(
                pairs_view(params@.take(i as int)).map_values(
                    |p: (Seq<char>, Seq<char>)| ", "@ + p.0 + ": "@ + p.1,
                ),
            ),
        decreases params@.len() - i,
    {
        let ghost before = out@;
        out.append(", ");
        out.append(params[i].0.as_str());
        out.append(": ");
        out.append(params[i].1.as_str());
        let ghost xs = pairs_view(params@.take(i + 1)).map_values(
            |p: (Seq<char>, Seq<char>)| ", "@ + p.0 + ": "@ + p.1,
        );
        assert(xs.drop_last() =~= pairs_view(params@.take(i as int)).map_values(
            |p: (Seq<char>, Seq<char>)| ", "@ + p.0 + ": "@ + p.1,
        ));
        assert(out@ =~= concat(xs));
        i = i + 1;
    }
    assert(params@.take(params@.len() as int) =~= params@);
    out
}

/// The source of the dispatch function `reify_<method>` for `m`: it matches
/// the runtime value against `start..=end`, calls the matching
/// instantiation of the method on `obj` with the remaining arguments, and
/// panics on any other value.
#[verifier::spinoff_prover]
#[verifier::rlimit(40)]
pub fn generate_dispatch_fn(t: &TraitDef, m: &ConstMethod, start: u64, end: u64) -> (r: String)
    ensures
        r@ == dispatch_text(t.name@, t.vis@, t.generics@, *m, start, end),
{
    let bound = bound_of(&t.name, &t.generics);
    let generics = dispatch_generic_list(t, m, &bound);
    let targs = type_args(&m.type_params);
    let names = param_names(&m.params);
    let ghost arms_of = |n: u64| arm_text(*m, n);
    let mut arms = String::new();
    if start <= end {
        let count: u128 = (end - start) as u128 + 1;
        let mut k: u128 = 0;
        while k < count
            invariant
                start <= end,
                count == end - start + 1,
                k <= count,
                targs@ == type_args_text(pairs_view(m.type_params@)),
                strs_view(names@) == pairs_view(m.params@).map_values(
                    |p: (Seq<char>, Seq<char>)| p.0,
                ),
                arms_of == (|n: u64| arm_text(*m, n)),
                arms@ == concat(range_values(start, end).take(k as int).map_values(arms_of)),
            decreases count - k,
        {
            let n: u64 = (start as u128 + k) as u64;
            let a = arm(m, n, &targs, &names);
            arms.append(a.as_str());
            let ghost xs = range_values(start, end).take(k + 1).map_values(arms_of);
            assert(xs.drop_last() =~= range_values(start, end).take(k as int).map_values(arms_of));
            assert(xs.last() == arm_text(*m, n));
            assert(arms@ =~= concat(xs));
            k = k + 1;
        }
        assert(range_values(start, end).take(count as int) =~= range_values(start, end));
    } else {
        assert(range_values(start, end).map_values(arms_of) =~= Seq::<Seq<char>>::empty());
    }
    let mut out = String::new();
    if !t.vis.as_str().is_empty() {
        out.append(t.vis.as_str());
        out.append(" ");
    }
    proof {
        if t.vis@.len() == 0 {
            assert(out@ =~= vis_prefix(t.vis@));
        }
    }
    out.append("fn reify_");
    out.append(m.name.as_str());
    out.append("<");
    push_joined(&mut out, &generics, ", ");
    out.append(">(val: ");
    out.append(m.const_param_ty.as_str());
    if m.is_mut {
        out.append(", obj: &mut __ReifyT");
    } else {
        out.append(", obj: &__ReifyT");
    }
    let decls = param_decls(&m.params);
    out.append(decls.as_str());
    out.append(")");
    match &m.return_type {
        Some(rt) => {
            out.append(" -> ");
            out.append(rt.as_str());
        },
        None => {},
    }
    out.append(" {\n    match val {\n");
    out.append(arms.as_str());
    out.append("        other => panic!(\"#[reifiable] dispatch for ");
    out.append(t.name.as_str());
    out.append("::");
    out.append(m.name.as_str());
    out.append(": value {} out of range 0..={}\", other, ");
    push_decimal(&mut out, end);
    out.append("),\n    }\n}\n");
    assert(out@ =~= dispatch_text(t.name@, t.vis@, t.generics@, *m, start, end));
    out
}

/// The name of the callback wrapper for method `m_name` of trait `t_name`:
/// the trait name, the method name in PascalCase, then `Callback`.
pub open spec fn callback_name(t_name: Seq<char>, m_name: Seq<char>) -> Seq<char> {
    t_name + pascal_case_of(m_name) + "Callback"@
}

/// The type a callback returns: the method's return type, or `()`.
pub open spec fn return_inner(rt: Option<String>) -> Seq<char> {
    match rt {
        Some(r) => r@,
        None => "()"@,
    }
}

/// Each of the trait's generic parameters, as declared, followed by `, `.
pub open spec fn decls_prefix(g: Seq<GenericParam>) -> Seq<char> {
    concat(g.map_values(|p: GenericParam| generic_decl(p) + ", "@))
}

/// Each of the trait's generic parameters, as an argument, followed by `, `.
pub open spec fn args_prefix(g: Seq<GenericParam>) -> Seq<char> {
    concat(g.map_values(|p: GenericParam| generic_arg(p) + ", "@))
}

/// The source of the `NatCallback` wrapper for a `&self` method `m`: a
/// struct holding the implementor and the method's other arguments, whose
/// `call::<N>()` calls the method's instantiation `N`.
pub open spec fn wrapper_text(
    t_name: Seq<char>,
    t_vis: Seq<char>,
    t_generics: Seq<GenericParam>,
    m: ConstMethod,
) -> Seq<char> {
    let name = callback_name(t_name, m.name@);
    let bound = trait_bound(t_name, t_generics);
    vis_prefix(t_vis) + "struct "@ + name + "<'__reify_a, "@ + decls_prefix(t_generics)
        + "__ReifyT: "@ + bound + "> {\n    pub obj: &'__reify_a __ReifyT,\n"@ + concat(
        pairs_view(m.params@).map_values(
            |p: (Seq<char>, Seq<char>)| "    pub "@ + p.0 + ": "@ + p.1 + ",\n"@,
        ),
    ) + "}\n\nimpl<"@ + decls_prefix(t_generics) + "__ReifyT: "@ + bound
        + "> reify_reflect::const_reify::NatCallback<"@ + return_inner(m.return_type) + "> for "@
        + name + "<'_, "@ + args_prefix(t_generics)
        + "__ReifyT> {\n    fn call<const N: u64>(&self) -> "@ + return_inner(m.return_type)
        + " {\n        self.obj."@ + m.name@ + "::<N"@ + type_args_text(pairs_view(m.type_params@))
        + ">("@ + join(
        pairs_view(m.params@).map_values(|p: (Seq<char>, Seq<char>)| "self."@ + p.0),
        ", "@,
    ) + ")\n    }\n}\n"@
}

fn generic_prefixes(g: &Vec<GenericParam>) -> (r: (String, String))
    ensures
        r.0@ == decls_prefix(g@),
        r.1@ == args_prefix(g@),
{
    let mut decls = String::new();
    let mut args = String::new();
    let mut i: usize = 0;
    while i < g.len()
        invariant
            i <= g@.len(),
            decls@ == decls_prefix(g@.take(i as int)),
            args@ == args_prefix(g@.take(i as int)),
        decreases g@.len() - i,
    {
        let d = decl_of(&g[i]);
        let a = arg_of(&g[i]);
        decls.append(d.as_str());
        decls.append(", ");
        args.append(a.as_str());
        args.append(", ");
        assert(g@.take(i + 1).map_values(|p: GenericParam| generic_decl(p) + ", "@).drop_last()
            =~= g@.take(i as int).map_values(|p: GenericParam| generic_decl(p) + ", "@));
        assert(g@.take(i + 1).map_values(|p: GenericParam| generic_arg(p) + ", "@).drop_last()
            =~= g@.take(i as int).map_values(|p: GenericParam| generic_arg(p) + ", "@));
        assert(decls@ =~= decls_prefix(g@.take(i + 1)));
        assert(args@ =~= args_prefix(g@.take(i + 1)));
        i = i + 1;
    }
    assert(g@.take(g@.len() as int) =~= g@);
    (decls, args)
}

fn field_decls(params: &Vec<(String, String)>) -> (r: String)
    ensures
        r@ == concat(
            pairs_view(params@).map_values(
                |p: (Seq<char>, Seq<char>)| "    pub "@ + p.0 + ": "@ + p.1 + ",\n"@,
            ),
        ),
{
    let mut out = String::new();
    let mut i: usize = 0;
    while i < params.len()
        invariant
            i <= params@.len(),
            out@ == concat(
                pairs_view(params@.take(i as int)).map_values(
                    |p: (Seq<char>, Seq<char>)| "    pub "@ + p.0 + ": "@ + p.1 + ",\n"@,
                ),
            ),
        decreases params@.len() - i,
    {
        out.append("    pub ");
        out.append(params[i].0.as_str());
        out.append(": ");
        out.append(params[i].1.as_str());
        out.append(",\n");
        let ghost xs = pairs_view(params@.take(i + 1)).map_values(
            |p: (Seq<char>, Seq<char>)| "    pub "@ + p.0 + ": "@ + p.1 + ",\n"@,
        );
        assert(xs.drop_last() =~= pairs_view(params@.take(i as int)).map_values(
            |p: (Seq<char>, Seq<char>)| "    pub "@ + p.0 + ": "@ + p.1 + ",\n"@,
        ));
        assert(out@ =~= concat(xs));
        i = i + 1;
    }
    assert(params@.take(params@.len() as int) =~= params@);
    out
}

fn self_args(params: &Vec<(String, String)>) -> (r: Vec<String>)
    ensures
        strs_view(r@) == pairs_view(params@).map_values(
            |p: (Seq<char>, Seq<char>)| "self."@ + p.0,
        ),
{
    let mut out: Vec<String> = Vec::new();
    let mut i: usize = 0;
    while i < params.len()
        invariant
            i <= params@.len(),
            out@.len() == i,
            forall|j: int| 0 <= j < i ==> (#[trigger] out@[j])@ == "self."@ + params@[j].0@,
        decreases params@.len() - i,
    {
        out.push(concat3("self.", params[i].0.as_str(), ""));
        proof {
            assert(""@.len() == 0) by {
                reveal_strlit("");
            }
            assert("self."@ + params@[i as int].0@ + ""@ =~= "self."@ + params@[i as int].0@);
        }
        i = i + 1;
    }
    assert(strs_view(out@) =~= pairs_view(params@).map_values(
        |p: (Seq<char>, Seq<char>)| "self."@ + p.0,
    ));
    out
}

/// The source of the `NatCallback` wrapper for `m`, or `None` for a
/// `&mut self` method (a callback is called through `&self`).
pub fn generate_callback_wrapper(t: &TraitDef, m: &ConstMethod) -> (r: Option<String>)
    ensures
        m.is_mut ==> r is None,
        !m.is_mut ==> (r matches Some(text) && text@ == wrapper_text(
            t.name@,
            t.vis@,
            t.generics@,
            *m,
        )),
{
    if m.is_mut {
        return None;
    }
    let bound = bound_of(&t.name, &t.generics);
    let (decls, args) = generic_prefixes(&t.generics);
    let targs = type_args(&m.type_params);
    let fields = field_decls(&m.params);
    let call_args = self_args(&m.params);
    let pascal = pascal_case(m.name.as_str());
    let mut name = t.name.clone();
    name.append(pascal.as_str());
    name.append("Callback");
    let ret = match &m.return_type {
        Some(rt) => rt.clone(),
        None => "()".to_string(),
    };
    let mut out = String::new();
    if !t.vis.as_str().is_empty() {
        out.append(t.vis.as_str());
        out.append(" ");
    }
    proof {
        if t.vis@.len() == 0 {
            assert(out@ =~= vis_prefix(t.vis@));
        }
    }
    out.append("struct ");
    out.append(name.as_str());
    out.append("<'__reify_a, ");
    out.append(decls.as_str());
    out.append("__ReifyT: ");
    out.append(bound.as_str());
    out.append("> {\n    pub obj: &'__reify_a __ReifyT,\n");
    out.append(fields.as_str());
    out.append("}\n\nimpl<");
    out.append(decls.as_str());
    out.append("__ReifyT: ");
    out.append(bound.as_str());
    out.append("> reify_reflect::const_reify::NatCallback<");
    out.append(ret.as_str());
    out.append("> for ");
    out.append(name.as_str());
    out.append("<'_, ");
    out.append(args.as_str());
    out.append("__ReifyT> {\n    fn call<const N: u64>(&self) -> ");
    out.append(ret.as_str());
    out.append(" {\n        self.obj.");
    out.append(m.name.as_str());
    out.append("::<N");
    out.append(targs.as_str());
    out.append(">(");
    push_joined(&mut out, &call_args, ", ");
    out.append(")\n    }\n}\n");
    assert(name@ =~= callback_name(t.name@, m.name@));
    assert(ret@ == return_inner(m.return_type));
    assert(out@ =~= wrapper_text(t.name@, t.vis@, t.generics@, *m));
    Some(out)
}

/// The largest accepted end of a dispatch range: at most 1024
/// instantiations per method.
pub const MAX_RANGE_END: u64 = 1023;

/// A dispatch description of `sig` (all of them give the same source).
pub open spec fn method_of(sig: MethodSig) -> ConstMethod {
    choose|m: ConstMethod| describes(m, sig)
}

/// The generator reports an error for `sig`.
pub open spec fn fails(sig: MethodSig) -> bool {
    !(outcome(sig) is Skipped) && !(outcome(sig) is Dispatched)
}

/// The dispatch function generated for `sig`, if any.
pub open spec fn dispatch_part(t: TraitDef, start: u64, end: u64, sig: MethodSig) -> Option<
    Seq<char>,
> {
    if outcome(sig) is Dispatched {
        Some(dispatch_text(t.name@, t.vis@, t.generics@, method_of(sig), start, end))
    } else {
        None
    }
}

/// The callback wrapper generated for `sig`, if any: only `&self` methods
/// get one.
pub open spec fn wrapper_part(t: TraitDef, sig: MethodSig) -> Option<Seq<char>> {
    if outcome(sig) is Dispatched && sig.receiver != Some(Receiver::Mut) {
        Some(wrapper_text(t.name@, t.vis@, t.generics@, method_of(sig)))
    } else {
        None
    }
}

/// All the source emitted for `t`: the trait itself, then the dispatch
/// functions in method order, then the callback wrappers in method order.
pub open spec fn generated_text(t: TraitDef, start: u64, end: u64) -> Seq<char> {
    t.source@ + concat(t.methods@.filter_map(|sig: MethodSig| dispatch_part(t, start, end, sig))) + concat(
        t.methods@.filter_map(|sig: MethodSig| wrapper_part(t, sig)),
    )
}

/// The generated source depends on a dispatch description only through
/// what it describes.
proof fn lemma_text_by_description(
    t: TraitDef,
    m1: ConstMethod,
    m2: ConstMethod,
    sig: MethodSig,
    start: u64,
    end: u64,
)
    requires
        describes(m1, sig),
        describes(m2, sig),
    ensures
        dispatch_text(t.name@, t.vis@, t.generics@, m1, start, end) == dispatch_text(
            t.name@,
            t.vis@,
            t.generics@,
            m2,
            start,
            end,
        ),
        wrapper_text(t.name@, t.vis@, t.generics@, m1) == wrapper_text(
            t.name@,
            t.vis@,
            t.generics@,
            m2,
        ),
        m1.is_mut == m2.is_mut,
{
    assert(range_values(start, end).map_values(|n: u64| arm_text(m1, n)) =~= range_values(
        start,
        end,
    ).map_values(|n: u64| arm_text(m2, n)));
    assert(return_inner(m1.return_type) == return_inner(m2.return_type));
    assert(dispatch_generics(t.name@, t.generics@, m1) =~= dispatch_generics(
        t.name@,
        t.generics@,
        m2,
    ));
}

/// What generating the dispatch tables of `t` for `start..=end` gives: an
/// error when the range ends above `MAX_RANGE_END`, else the error of the
/// first method the generator rejects, else the generated source.
pub open spec fn generation_result(
    t: TraitDef,
    start: u64,
    end: u64,
    r: Result<String, ReifiableError>,
) -> bool {
    &&& end > MAX_RANGE_END ==> (r matches Err(ReifiableError::RangeTooLarge { end: e }) && e
        == end)
    &&& end <= MAX_RANGE_END && (exists|i: int|
        0 <= i < t.methods@.len() && fails(#[trigger] t.methods@[i])) ==> (r matches Err(e)
        && exists|i: int|
        0 <= i < t.methods@.len() && error_for(e, #[trigger] t.methods@[i]) && forall|j: int|
            0 <= j < i ==> !fails(#[trigger] t.methods@[j]))
    &&& end <= MAX_RANGE_END && (forall|i: int|
        0 <= i < t.methods@.len() ==> !fails(#[trigger] t.methods@[i])) ==> (r matches Ok(text)
        && text@ == generated_text(t, start, end))
}

/// Generate the dispatch tables of `t` for the range `start..=end`: an
/// error when the range ends above `MAX_RANGE_END`, else the error of the
/// first method the generator rejects, else the generated source.
pub fn reifiable_impl(t: &TraitDef, start: u64, end: u64) -> (r: Result<String, ReifiableError>)
    ensures
        generation_result(*t, start, end, r),
{
    if end > MAX_RANGE_END {
        return Err(ReifiableError::RangeTooLarge { end });
    }
    let ghost dp = |sig: MethodSig| dispatch_part(*t, start, end, sig);
    let ghost wp = |sig: MethodSig| wrapper_part(*t, sig);
    let mut fns = String::new();
    let mut wrappers = String::new();
    let mut i: usize = 0;
    while i < t.methods.len()
        invariant
            i <= t.methods@.len(),
            end <= MAX_RANGE_END,
            dp == (|sig: MethodSig| dispatch_part(*t, start, end, sig)),
            wp == (|sig: MethodSig| wrapper_part(*t, sig)),
            forall|j: int| 0 <= j < i ==> !fails(#[trigger] t.methods@[j]),
            fns@ == concat(t.methods@.take(i as int).filter_map(dp)),
            wrappers@ == concat(t.methods@.take(i as int).filter_map(wp)),
        decreases t.methods@.len() - i,
    {
        let ghost sig = t.methods@[i as int];
        assert(t.methods@.take(i + 1).drop_last() =~= t.methods@.take(i as int));
        assert(t.methods@.take(i + 1).last() == sig);
        let ghost fx = t.methods@.take(i as int).filter_map(dp);
        let ghost fy = t.methods@.take(i + 1).filter_map(dp);
        let ghost wx = t.methods@.take(i as int).filter_map(wp);
        let ghost wy = t.methods@.take(i + 1).filter_map(wp);
        match analyze_method(&t.methods[i]) {
            None => {
                assert(fy == fx);
                assert(wy == wx);
            },
            Some(Err(e)) => {
                assert(fails(sig));
                return Err(e);
            },
            Some(Ok(m)) => {
                proof {
                    lemma_text_by_description(*t, m, method_of(sig), sig, start, end);
                }
                let text = generate_dispatch_fn(t, &m, start, end);
                fns.append(text.as_str());
                assert(fy == fx.push(dispatch_part(*t, start, end, sig)->0));
                assert(fy.drop_last() =~= fx);
                assert(fns@ =~= concat(fy));
                match generate_callback_wrapper(t, &m) {
                    Some(w) => {
                        wrappers.append(w.as_str());
                        assert(wy == wx.push(wrapper_part(*t, sig)->0));
                        assert(wy.drop_last() =~= wx);
                        assert(wrappers@ =~= concat(wy));
                    },
                    None => {
                        assert(wy == wx);
                    },
                }
            },
        }
        i = i + 1;
    }
    assert(t.methods@.take(t.methods@.len() as int) =~= t.methods@);
    let mut out = t.source.clone();
    out.append(fns.as_str());
    out.append(wrappers.as_str());
    assert(out@ =~= generated_text(*t, start, end));
    Ok(out)
}

/// The message of a range that ends at `end`, above `MAX_RANGE_END`.
pub open spec fn range_message(end: u64) -> Seq<char> {
    "#[reifiable] range 0..="@ + decimal(end as nat) + " would generate "@ + decimal(end as nat + 1)
        + " monomorphizations per method. Maximum is 1024. Use a smaller range."@
}

/// The message of a method the generator rejects, by its outcome.
pub open spec fn method_message(sig: MethodSig) -> Seq<char> {
    match outcome(sig) {
        MethodOutcome::MultipleConstParams =>
            "#[reifiable] V1 only supports a single const generic parameter per method"@,
        MethodOutcome::MissingReceiver =>
            "#[reifiable] requires methods with &self or &mut self receiver"@,
        MethodOutcome::ReturnDependsOnConst(p) =>
            "#[reifiable] V1 does not support return types that depend on the const parameter `"@
                + p + "`. Use NatCallback manually for this case."@,
        _ => Seq::empty(),
    }
}

/// The message of an error.
pub open spec fn reifiable_message(e: ReifiableError) -> Seq<char> {
    match e {
        ReifiableError::MultipleConstParams { method } =>
            "#[reifiable] V1 only supports a single const generic parameter per method"@,
        ReifiableError::MissingReceiver { method } =>
            "#[reifiable] requires methods with &self or &mut self receiver"@,
        ReifiableError::ReturnDependsOnConst { method, param } =>
            "#[reifiable] V1 does not support return types that depend on the const parameter `"@
                + param@ + "`. Use NatCallback manually for this case."@,
        ReifiableError::RangeTooLarge { end } => range_message(end),
        ReifiableError::Args(a) => args_message(a),
    }
}

/// The error reported for a method has that method's message.
proof fn lemma_error_message(e: ReifiableError, sig: MethodSig)
    requires
        error_for(e, sig),
    ensures
        reifiable_message(e) == method_message(sig),
{
}

impl ReifiableError {
    /// The error's message.
    pub fn message(&self) -> (r: String)
        ensures
            r@ == reifiable_message(*self),
    {
        match self {
            ReifiableError::MultipleConstParams { method } => {
                "#[reifiable] V1 only supports a single const generic parameter per method".to_string()
            },
            ReifiableError::MissingReceiver { method } => {
                "#[reifiable] requires methods with &self or &mut self receiver".to_string()
            },
            ReifiableError::ReturnDependsOnConst { method, param } => {
                let mut m =
                    "#[reifiable] V1 does not support return types that depend on the const parameter `".to_string();
                m.append(param.as_str());
                m.append("`. Use NatCallback manually for this case.");
                m
            },
            ReifiableError::RangeTooLarge { end } => {
                let mut m = "#[reifiable] range 0..=".to_string();
                push_decimal(&mut m, *end);
                m.append(" would generate ");
                push_decimal_succ(&mut m, *end);
                m.append(" monomorphizations per method. Maximum is 1024. Use a smaller range.");
                assert(m@ =~= range_message(*end));
                m
            },
            ReifiableError::Args(a) => a.message(),
        }
    }
}

/// `s` as the inside of a string literal: `"` and `\` escaped with `\`.
pub open spec fn escaped(s: Seq<char>) -> Seq<char>
    decreases s.len(),
{
    if s.len() == 0 {
        Seq::empty()
    } else {
        let c = s.last();
        if c == '"' || c == '\\' {
            escaped(s.drop_last()).push('\\').push(c)
        } else {
            escaped(s.drop_last()).push(c)
        }
    }
}

/// The source of a compile error with message `m`.
pub open spec fn compile_error_text(m: Seq<char>) -> Seq<char> {
    "::core::compile_error! { \""@ + escaped(m) + "\" }\n"@
}

fn push_compile_error(out: &mut String, m: &String)
    ensures
        final(out)@ == old(out)@ + compile_error_text(m@),
{
    broadcast use vstd::string::axiom_spec_iter;

    out.append("::core::compile_error! { \"");
    let ghost start = out@;
    for c in it: m.as_str().chars()
        invariant
            it.seq() == m@,
            out@ == start + escaped(m@.take(it.index() as int)),
    {
        let ghost i = it.index();
        assert(m@.take(i + 1).drop_last() =~= m@.take(i as int));
        if c == '"' || c == '\\' {
            push_char(out, '\\');
        }
        push_char(out, c);
        assert(out@ =~= start + escaped(m@.take(i + 1)));
    }
    assert(m@.take(m@.len() as int) =~= m@);
    out.append("\" }\n");
    assert(final(out)@ =~= old(out)@ + compile_error_text(m@));
}

/// The whole attribute, as the source it expands to: read
/// `range = START..=END` from `args` (a refusal expands to the compile
/// error alone), then generate the dispatch tables of `t`; when the
/// generator refuses, the trait is emitted unchanged followed by the
/// compile error.
pub fn reifiable(args: &Vec<Token>, t: &TraitDef) -> (r: String)
    ensures
        match range_args(args@) {
            Err(e) => r@ == compile_error_text(args_message(e)),
            Ok((start, end)) => {
                &&& end > MAX_RANGE_END ==> r@ == t.source@ + compile_error_text(
                    range_message(end),
                )
                &&& end <= MAX_RANGE_END && (exists|i: int|
                    0 <= i < t.methods@.len() && fails(#[trigger] t.methods@[i])) ==> exists|i: int|
                    0 <= i < t.methods@.len() && fails(#[trigger] t.methods@[i]) && (forall|j: int|
                        0 <= j < i ==> !fails(#[trigger] t.methods@[j])) && r@ == t.source@
                        + compile_error_text(method_message(t.methods@[i]))
                &&& end <= MAX_RANGE_END && (forall|i: int|
                    0 <= i < t.methods@.len() ==> !fails(#[trigger] t.methods@[i])) ==> r@
                    == generated_text(*t, start, end)
            },
        },
{
    match parse_range_args(args) {
        Err(e) => {
            let mut out = String::new();
            let m = e.message();
            push_compile_error(&mut out, &m);
            assert(out@ =~= compile_error_text(args_message(e)));
            out
        },
        Ok((start, end)) => match reifiable_impl(t, start, end) {
            Ok(text) => text,
            Err(e) => {
                let mut out = t.source.clone();
                let m = e.message();
                push_compile_error(&mut out, &m);
                proof {
                    if end <= MAX_RANGE_END && (exists|i: int|
                        0 <= i < t.methods@.len() && fails(#[trigger] t.methods@[i])) {
                        let i = choose|i: int|
                            0 <= i < t.methods@.len() && error_for(e, #[trigger] t.methods@[i])
                                && forall|j: int| 0 <= j < i ==> !fails(#[trigger] t.methods@[j]);
                        lemma_error_message(e, t.methods@[i]);
                        assert(fails(t.methods@[i]));
                    }
                }
                out
            },
        },
    }
}

} // verus!
