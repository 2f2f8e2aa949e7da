//! Runtime `u64` to const-generic dispatch: a value in `0..=255` selects the
//! matching monomorphization of a callback's `call::<N>()`.

use std::marker::PhantomData;
use vstd::prelude::*;

verus! {

/// Maximum supported value for dispatch.
pub const MAX_REIFY_VALUE: u64 = 255;

/// Exposes the const generic a type was instantiated with.
pub trait HasModulus {
    /// The modulus this value carries.
    spec fn spec_modulus(&self) -> u64;

    /// The modulus this value carries, at runtime.
    fn modulus(&self) -> (r: u64)
        ensures
            r == self.spec_modulus(),
    ;
}

/// A zero-sized carrier of the const generic `N`.
pub struct Modular<const N: u64>;

impl<const N: u64> HasModulus for Modular<N> {
    open spec fn spec_modulus(&self) -> u64 {
        N
    }

    fn modulus(&self) -> (r: u64) {
        N
    }
}

/// Callback for single-value reification: inside `call`, `N` is a const
/// generic.
///
/// `accepts(n)` says on which `n` a call is allowed and `produces(n, r)`
/// which results a call with `N == n` may give.
pub trait NatCallback<R> {
    /// Whether `call::<n>()` may be made; every call, unless an
    /// implementation says otherwise.
    open spec fn accepts(&self, n: u64) -> bool {
        true
    }

    /// Whether `r` is a possible result of `call::<n>()`; any result, unless
    /// an implementation says otherwise.
    open spec fn produces(&self, n: u64, r: R) -> bool {
        true
    }

    /// Called with the const generic `N` matching the runtime value.
    fn call<const N: u64>(&self) -> (r: R)
        requires
            self.accepts(N),
        ensures
            self.produces(N, r),
    ;
}

/// Callback for two-value reification: inside `call`, both `A` and `B` are
/// const generics.
pub trait Nat2Callback<R> {
    /// Whether `call::<a, b>()` may be made; every call, unless an
    /// implementation says otherwise.
    open spec fn accepts(&self, a: u64, b: u64) -> bool {
        true
    }

    /// Whether `r` is a possible result of `call::<a, b>()`; any result,
    /// unless an implementation says otherwise.
    open spec fn produces(&self, a: u64, b: u64, r: R) -> bool {
        true
    }

    /// Called with both const generic values.
    fn call<const A: u64, const B: u64>(&self) -> (r: R)
        requires
            self.accepts(A, B),
        ensures
            self.produces(A, B, r),
    ;
}

/// Reify a runtime `u64` in `0..=255` into a const-generic context: the
/// callback runs with `N == val`.
pub fn reify_nat<C: NatCallback<R>, R>(val: u64, callback: &C) -> (r: R)
    requires
        val <= MAX_REIFY_VALUE,
        callback.accepts(val),
    ensures
        callback.produces(val, r),
{
    match val {
        0 => callback.call::<0>(),
        1 => callback.call::<1>(),
        2 => callback.call::<2>(),
        3 => callback.call::<3>(),
        4 => callback.call::<4>(),
        5 => callback.call::<5>(),
        6 => callback.call::<6>(),
        7 => callback.call::<7>(),
        8 => callback.call::<8>(),
        9 => callback.call::<9>(),
        10 => callback.call::<10>(),
        11 => callback.call::<11>(),
        12 => callback.call::<12>(),
        13 => callback.call::<13>(),
        14 => callback.call::<14>(),
        15 => callback.call::<15>(),
        16 => callback.call::<16>(),
        17 => callback.call::<17>(),
        18 => callback.call::<18>(),
        19 => callback.call::<19>(),
        20 => callback.call::<20>(),
        21 => callback.call::<21>(),
        22 => callback.call::<22>(),
        23 => callback.call::<23>(),
        24 => callback.call::<24>(),
        25 => callback.call::<25>(),
        26 => callback.call::<26>(),
        27 => callback.call::<27>(),
        28 => callback.call::<28>(),
        29 => callback.call::<29>(),
        30 => callback.call::<30>(),
        31 => callback.call::<31>(),
        32 => callback.call::<32>(),
        33 => callback.call::<33>(),
        34 => callback.call::<34>(),
        35 => callback.call::<35>(),
        36 => callback.call::<36>(),
        37 => callback.call::<37>(),
        38 => callback.call::<38>(),
        39 => callback.call::<39>(),
        40 => callback.call::<40>(),
        41 => callback.call::<41>(),
        42 => callback.call::<42>(),
        43 => callback.call::<43>(),
        44 => callback.call::<44>(),
        45 => callback.call::<45>(),
        46 => callback.call::<46>(),
        47 => callback.call::<47>(),
        48 => callback.call::<48>(),
        49 => callback.call::<49>(),
        50 => callback.call::<50>(),
        51 => callback.call::<51>(),
        52 => callback.call::<52>(),
        53 => callback.call::<53>(),
        54 => callback.call::<54>(),
        55 => callback.call::<55>(),
        56 => callback.call::<56>(),
        57 => callback.call::<57>(),
        58 => callback.call::<58>(),
        59 => callback.call::<59>(),
        60 => callback.call::<60>(),
        61 => callback.call::<61>(),
        62 => callback.call::<62>(),
        63 => callback.call::<63>(),
        64 => callback.call::<64>(),
        65 => callback.call::<65>(),
        66 => callback.call::<66>(),
        67 => callback.call::<67>(),
        68 => callback.call::<68>(),
        69 => callback.call::<69>(),
        70 => callback.call::<70>(),
        71 => callback.call::<71>(),
        72 => callback.call::<72>(),
        73 => callback.call::<73>(),
        74 => callback.call::<74>(),
        75 => callback.call::<75>(),
        76 => callback.call::<76>(),
        77 => callback.call::<77>(),
        78 => callback.call::<78>(),
        79 => callback.call::<79>(),
        80 => callback.call::<80>(),
        81 => callback.call::<81>(),
        82 => callback.call::<82>(),
        83 => callback.call::<83>(),
        84 => callback.call::<84>(),
        85 => callback.call::<85>(),
        86 => callback.call::<86>(),
        87 => callback.call::<87>(),
        88 => callback.call::<88>(),
        89 => callback.call::<89>(),
        90 => callback.call::<90>(),
        91 => callback.call::<91>(),
        92 => callback.call::<92>(),
        93 => callback.call::<93>(),
        94 => callback.call::<94>(),
        95 => callback.call::<95>(),
        96 => callback.call::<96>(),
        97 => callback.call::<97>(),
        98 => callback.call::<98>(),
        99 => callback.call::<99>(),
        100 => callback.call::<100>(),
        101 => callback.call::<101>(),
        102 => callback.call::<102>(),
        103 => callback.call::<103>(),
        104 => callback.call::<104>(),
        105 => callback.call::<105>(),
        106 => callback.call::<106>(),
        107 => callback.call::<107>(),
        108 => callback.call::<108>(),
        109 => callback.call::<109>(),
        110 => callback.call::<110>(),
        111 => callback.call::<111>(),
        112 => callback.call::<112>(),
        113 => callback.call::<113>(),
        114 => callback.call::<114>(),
        115 => callback.call::<115>(),
        116 => callback.call::<116>(),
        117 => callback.call::<117>(),
        118 => callback.call::<118>(),
        119 => callback.call::<119>(),
        120 => callback.call::<120>(),
        121 => callback.call::<121>(),
        122 => callback.call::<122>(),
        123 => callback.call::<123>(),
        124 => callback.call::<124>(),
        125 => callback.call::<125>(),
        126 => callback.call::<126>(),
        127 => callback.call::<127>(),
        128 => callback.call::<128>(),
        129 => callback.call::<129>(),
        130 => callback.call::<130>(),
        131 => callback.call::<131>(),
        132 => callback.call::<132>(),
        133 => callback.call::<133>(),
        134 => callback.call::<134>(),
        135 => callback.call::<135>(),
        136 => callback.call::<136>(),
        137 => callback.call::<137>(),
        138 => callback.call::<138>(),
        139 => callback.call::<139>(),
        140 => callback.call::<140>(),
        141 => callback.call::<141>(),
        142 => callback.call::<142>(),
        143 => callback.call::<143>(),
        144 => callback.call::<144>(),
        145 => callback.call::<145>(),
        146 => callback.call::<146>(),
        147 => callback.call::<147>(),
        148 => callback.call::<148>(),
        149 => callback.call::<149>(),
        150 => callback.call::<150>(),
        151 => callback.call::<151>(),
        152 => callback.call::<152>(),
        153 => callback.call::<153>(),
        154 => callback.call::<154>(),
        155 => callback.call::<155>(),
        156 => callback.call::<156>(),
        157 => callback.call::<157>(),
        158 => callback.call::<158>(),
        159 => callback.call::<159>(),
        160 => callback.call::<160>(),
        161 => callback.call::<161>(),
        162 => callback.call::<162>(),
        163 => callback.call::<163>(),
        164 => callback.call::<164>(),
        165 => callback.call::<165>(),
        166 => callback.call::<166>(),
        167 => callback.call::<167>(),
        168 => callback.call::<168>(),
        169 => callback.call::<169>(),
        170 => callback.call::<170>(),
        171 => callback.call::<171>(),
        172 => callback.call::<172>(),
        173 => callback.call::<173>(),
        174 => callback.call::<174>(),
        175 => callback.call::<175>(),
        176 => callback.call::<176>(),
        177 => callback.call::<177>(),
        178 => callback.call::<178>(),
        179 => callback.call::<179>(),
        180 => callback.call::<180>(),
        181 => callback.call::<181>(),
        182 => callback.call::<182>(),
        183 => callback.call::<183>(),
        184 => callback.call::<184>(),
        185 => callback.call::<185>(),
        186 => callback.call::<186>(),
        187 => callback.call::<187>(),
        188 => callback.call::<188>(),
        189 => callback.call::<189>(),
        190 => callback.call::<190>(),
        191 => callback.call::<191>(),
        192 => callback.call::<192>(),
        193 => callback.call::<193>(),
        194 => callback.call::<194>(),
        195 => callback.call::<195>(),
        196 => callback.call::<196>(),
        197 => callback.call::<197>(),
        198 => callback.call::<198>(),
        199 => callback.call::<199>(),
        200 => callback.call::<200>(),
        201 => callback.call::<201>(),
        202 => callback.call::<202>(),
        203 => callback.call::<203>(),
        204 => callback.call::<204>(),
        205 => callback.call::<205>(),
        206 => callback.call::<206>(),
        207 => callback.call::<207>(),
        208 => callback.call::<208>(),
        209 => callback.call::<209>(),
        210 => callback.call::<210>(),
        211 => callback.call::<211>(),
        212 => callback.call::<212>(),
        213 => callback.call::<213>(),
        214 => callback.call::<214>(),
        215 => callback.call::<215>(),
        216 => callback.call::<216>(),
        217 => callback.call::<217>(),
        218 => callback.call::<218>(),
        219 => callback.call::<219>(),
        220 => callback.call::<220>(),
        221 => callback.call::<221>(),
        222 => callback.call::<222>(),
        223 => callback.call::<223>(),
        224 => callback.call::<224>(),
        225 => callback.call::<225>(),
        226 => callback.call::<226>(),
        227 => callback.call::<227>(),
        228 => callback.call::<228>(),
        229 => callback.call::<229>(),
        230 => callback.call::<230>(),
        231 => callback.call::<231>(),
        232 => callback.call::<232>(),
        233 => callback.call::<233>(),
        234 => callback.call::<234>(),
        235 => callback.call::<235>(),
        236 => callback.call::<236>(),
        237 => callback.call::<237>(),
        238 => callback.call::<238>(),
        239 => callback.call::<239>(),
        240 => callback.call::<240>(),
        241 => callback.call::<241>(),
        242 => callback.call::<242>(),
        243 => callback.call::<243>(),
        244 => callback.call::<244>(),
        245 => callback.call::<245>(),
        246 => callback.call::<246>(),
        247 => callback.call::<247>(),
        248 => callback.call::<248>(),
        249 => callback.call::<249>(),
        250 => callback.call::<250>(),
        251 => callback.call::<251>(),
        252 => callback.call::<252>(),
        253 => callback.call::<253>(),
        254 => callback.call::<254>(),
        255 => callback.call::<255>(),
        _ => vstd::pervasive::unreached(),
    }
}

struct Outer<'a, C, R> {
    b: u64,
    inner: &'a C,
    marker: PhantomData<R>,
}

struct Inner<'a, const A: u64, C, R> {
    inner: &'a C,
    marker: PhantomData<R>,
}

impl<'a, const A: u64, C: Nat2Callback<R>, R> NatCallback<R> for Inner<'a, A, C, R> {
    closed spec fn accepts(&self, n: u64) -> bool {
        self.inner.accepts(A, n)
    }

    closed spec fn produces(&self, n: u64, r: R) -> bool {
        self.inner.produces(A, n, r)
    }

    fn call<const N: u64>(&self) -> (r: R) {
        self.inner.call::<A, N>()
    }
}

impl<'a, C: Nat2Callback<R>, R> NatCallback<R> for Outer<'a, C, R> {
    closed spec fn accepts(&self, n: u64) -> bool {
        self.b <= MAX_REIFY_VALUE && self.inner.accepts(n, self.b)
    }

    closed spec fn produces(&self, n: u64, r: R) -> bool {
        self.inner.produces(n, self.b, r)
    }

    fn call<const N: u64>(&self) -> (r: R) {
        reify_nat(self.b, &Inner::<N, C, R> { inner: self.inner, marker: PhantomData })
    }
}

/// Reify two runtime `u64` values (each in `0..=255`): the callback runs
/// with `A == a` and `B == b`.
pub fn reify_nat2<C: Nat2Callback<R>, R>(a: u64, b: u64, callback: &C) -> (r: R)
    requires
        a <= MAX_REIFY_VALUE,
        b <= MAX_REIFY_VALUE,
        callback.accepts(a, b),
    ensures
        callback.produces(a, b, r),
{
    reify_nat(a, &Outer { b, inner: callback, marker: PhantomData })
}

/// Adapts a `Fn(u64) -> R` closure into a `NatCallback`: the const generic is
/// passed to the closure as a plain `u64`.
pub struct FnNat<F>(pub F);

impl<F: Fn(u64) -> R, R> NatCallback<R> for FnNat<F> {
    open spec fn accepts(&self, n: u64) -> bool {
        self.0.requires((n,))
    }

    open spec fn produces(&self, n: u64, r: R) -> bool {
        self.0.ensures((n,), r)
    }

    fn call<const N: u64>(&self) -> (r: R) {
        (self.0)(N)
    }
}

/// Adapts a `Fn(u64, u64) -> R` closure into a `Nat2Callback`.
pub struct FnNat2<F>(pub F);

impl<F: Fn(u64, u64) -> R, R> Nat2Callback<R> for FnNat2<F> {
    open spec fn accepts(&self, a: u64, b: u64) -> bool {
        self.0.requires((a, b))
    }

    open spec fn produces(&self, a: u64, b: u64, r: R) -> bool {
        self.0.ensures((a, b), r)
    }

    fn call<const A: u64, const B: u64>(&self) -> (r: R) {
        (self.0)(A, B)
    }
}

/// Single-value reification with a closure: `f` is applied to `val`.
pub fn reify_nat_fn<F: Fn(u64) -> R, R>(val: u64, f: F) -> (r: R)
    requires
        val <= MAX_REIFY_VALUE,
        f.requires((val,)),
    ensures
        f.ensures((val,), r),
{
    reify_nat(val, &FnNat(f))
}

/// Two-value reification with a closure: `f` is applied to `(a, b)`.
pub fn reify_nat2_fn<F: Fn(u64, u64) -> R, R>(a: u64, b: u64, f: F) -> (r: R)
    requires
        a <= MAX_REIFY_VALUE,
        b <= MAX_REIFY_VALUE,
        f.requires((a, b)),
    ensures
        f.ensures((a, b), r),
{
    reify_nat2(a, b, &FnNat2(f))
}

} // verus!
