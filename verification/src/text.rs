//! Text helpers with exact contracts: decimal rendering, PascalCase names,
//! and whitespace-collapsed labels.

use vstd::prelude::*;
use vstd::string::*;

verus! {

/// The decimal digit character for `d < 10`.
pub open spec fn digit_char(d: nat) -> char {
    if d == 0 {
        '0'
    } else if d == 1 {
        '1'
    } else if d == 2 {
        '2'
    } else if d == 3 {
        '3'
    } else if d == 4 {
        '4'
    } else if d == 5 {
        '5'
    } else if d == 6 {
        '6'
    } else if d == 7 {
        '7'
    } else if d == 8 {
        '8'
    } else {
        '9'
    }
}

/// The decimal rendering of `n`, without leading zeros.
pub open spec fn decimal(n: nat) -> Seq<char>
    decreases n,
{
    if n < 10 {
        seq![digit_char(n)]
    } else {
        decimal(n / 10).push(digit_char(n % 10))
    }
}

/// The characters of `s`, in order.
pub(crate) fn chars_of(s: &str) -> (r: Vec<char>)
    ensures
        r@ == s@,
{
    broadcast use vstd::string::axiom_spec_iter;

    let mut out: Vec<char> = Vec::new();
    for c in it: s.chars()
        invariant
            it.seq() == s@,
            out@ == s@.take(it.index() as int),
    {
        let ghost i = it.index();
        out.push(c);
        assert(out@ =~= s@.take(i + 1));
    }
    assert(s@.take(s@.len() as int) =~= s@);
    out
}

/// Appends one character (`String::push`).
#[verifier::external_body]
pub(crate) fn push_char(s: &mut String, c: char)
    ensures
        final(s)@ == old(s)@.push(c),
{
    s.push(c);
}

fn digit_of(d: u64) -> (c: char)
    requires
        d < 10,
    ensures
        c == digit_char(d as nat),
{
    if d == 0 {
        '0'
    } else if d == 1 {
        '1'
    } else if d == 2 {
        '2'
    } else if d == 3 {
        '3'
    } else if d == 4 {
        '4'
    } else if d == 5 {
        '5'
    } else if d == 6 {
        '6'
    } else if d == 7 {
        '7'
    } else if d == 8 {
        '8'
    } else {
        '9'
    }
}

/// Appends the decimal rendering of `n` to `s`.
pub fn push_decimal(s: &mut String, n: u64)
    ensures
        final(s)@ == old(s)@ + decimal(n as nat),
    decreases n,
{
    if n < 10 {
        push_char(s, digit_of(n));
        assert(decimal(n as nat) == seq![digit_char(n as nat)]);
        assert(old(s)@.push(digit_char(n as nat)) =~= old(s)@ + decimal(n as nat));
    } else {
        push_decimal(s, n / 10);
        push_char(s, digit_of(n % 10));
        assert(final(s)@ =~= old(s)@ + decimal(n as nat));
    }
}

/// Appends the decimal rendering of `n + 1` to `s` (which need not fit in a
/// `u64`).
pub(crate) fn push_decimal_succ(s: &mut String, n: u64)
    ensures
        final(s)@ == old(s)@ + decimal(n as nat + 1),
{
    let q: u64 = if n % 10 == 9 {
        n / 10 + 1
    } else {
        n / 10
    };
    let d: u64 = (n % 10 + 1) % 10;
    assert(q as nat == (n as nat + 1) / 10 && d as nat == (n as nat + 1) % 10);
    if q == 0 {
        push_char(s, digit_of(d));
        assert(old(s)@.push(digit_char(d as nat)) =~= old(s)@ + decimal(n as nat + 1));
    } else {
        push_decimal(s, q);
        push_char(s, digit_of(d));
        assert(final(s)@ =~= old(s)@ + decimal(n as nat + 1));
    }
}

/// The ASCII upper-case counterpart of `c`: `'a'..='z'` map to
/// `'A'..='Z'`, every other character is unchanged.
pub open spec fn ascii_upper(c: char) -> char {
    if 'a' <= c <= 'z' {
        ((c as u32) - 32) as char
    } else {
        c
    }
}

/// The ASCII upper-case counterpart of `c`, as `char::to_ascii_uppercase`
/// gives it.
fn to_ascii_uppercase(c: char) -> (r: char)
    ensures
        r == ascii_upper(c),
{
    if 'a' <= c && c <= 'z' {
        let b: u8 = c as u8;
        let u: u8 = b - 32;
        assert(u as u32 == (c as u32) - 32);
        u as char
    } else {
        c
    }
}

/// `s` in PascalCase: underscores are dropped, and the character that
/// begins the string or follows an underscore is upper-cased (ASCII).
pub open spec fn pascal_case_of(s: Seq<char>) -> Seq<char>
    decreases s.len(),
{
    if s.len() == 0 {
        Seq::empty()
    } else {
        let prev = s.drop_last();
        let c = s.last();
        if c == '_' {
            pascal_case_of(prev)
        } else if prev.len() == 0 || prev.last() == '_' {
            pascal_case_of(prev).push(ascii_upper(c))
        } else {
            pascal_case_of(prev).push(c)
        }
    }
}

/// Converts a `snake_case` identifier to `PascalCase`: `mul_mod` becomes
/// `MulMod`.
pub fn pascal_case(s: &str) -> (r: String)
    ensures
        r@ == pascal_case_of(s@),
{
    broadcast use vstd::string::axiom_spec_iter;

    let mut result = String::new();
    let mut capitalize_next = true;
    for c in it: s.chars()
        invariant
            it.seq() == s@,
            result@ == pascal_case_of(s@.take(it.index() as int)),
            capitalize_next == (it.index() == 0 || s@[it.index() - 1] == '_'),
    {
        let ghost i = it.index();
        assert(s@.take(i + 1).drop_last() =~= s@.take(i as int));
        if c == '_' {
            capitalize_next = true;
        } else if capitalize_next {
            push_char(&mut result, to_ascii_uppercase(c));
            capitalize_next = false;
        } else {
            push_char(&mut result, c);
        }
    }
    assert(s@.take(s@.len() as int) =~= s@);
    result
}

/// Whether `c` has the Unicode `White_Space` property: U+0009 to U+000D,
/// U+0020, U+0085, U+00A0, U+1680, U+2000 to U+200A, U+2028, U+2029,
/// U+202F, U+205F and U+3000.
pub open spec fn whitespace(c: char) -> bool {
    let u = c as u32;
    ||| 0x09 <= u <= 0x0D
    ||| u == 0x20
    ||| u == 0x85
    ||| u == 0xA0
    ||| u == 0x1680
    ||| 0x2000 <= u <= 0x200A
    ||| u == 0x2028
    ||| u == 0x2029
    ||| u == 0x202F
    ||| u == 0x205F
    ||| u == 0x3000
}

/// Whether `c` has the Unicode `White_Space` property (what
/// `char::is_whitespace` answers), by its code point.
fn is_whitespace(c: char) -> (r: bool)
    ensures
        r == whitespace(c),
{
    let u = c as u32;
    (0x09 <= u && u <= 0x0D) || u == 0x20 || u == 0x85 || u == 0xA0 || u == 0x1680 || (0x2000 <= u
        && u <= 0x200A) || u == 0x2028 || u == 0x2029 || u == 0x202F || u == 0x205F || u == 0x3000
}

/// `s` with each run of whitespace replaced by a single space.
pub open spec fn collapsed(s: Seq<char>) -> Seq<char>
    decreases s.len(),
{
    if s.len() == 0 {
        Seq::empty()
    } else {
        let prev = s.drop_last();
        let c = s.last();
        if !whitespace(c) {
            collapsed(prev).push(c)
        } else if prev.len() > 0 && whitespace(prev.last()) {
            collapsed(prev)
        } else {
            collapsed(prev).push(' ')
        }
    }
}

/// `t` without its leading whitespace.
pub open spec fn trim_start(t: Seq<char>) -> Seq<char>
    decreases t.len(),
{
    if t.len() > 0 && whitespace(t[0]) {
        trim_start(t.drop_first())
    } else {
        t
    }
}

/// `t` without its trailing whitespace.
pub open spec fn trim_end(t: Seq<char>) -> Seq<char>
    decreases t.len(),
{
    if t.len() > 0 && whitespace(t.last()) {
        trim_end(t.drop_last())
    } else {
        t
    }
}

/// A one-line label for a piece of source text: runs of whitespace
/// collapsed to one space, leading and trailing whitespace removed.
pub fn collapse_whitespace(s: &str) -> (r: String)
    ensures
        r@ == trim_end(trim_start(collapsed(s@))),
{
    broadcast use vstd::string::axiom_spec_iter;

    let mut out: Vec<char> = Vec::new();
    let mut prev_space = false;
    for c in it: s.chars()
        invariant
            it.seq() == s@,
            out@ == collapsed(s@.take(it.index() as int)),
            prev_space == (it.index() > 0 && whitespace(s@[it.index() - 1])),
    {
        let ghost i = it.index();
        assert(s@.take(i + 1).drop_last() =~= s@.take(i as int));
        if is_whitespace(c) {
            if !prev_space {
                out.push(' ');
                prev_space = true;
            }
        } else {
            out.push(c);
            prev_space = false;
        }
    }
    assert(s@.take(s@.len() as int) =~= s@);
    let ghost t = out@;
    let n = out.len();
    let mut a: usize = 0;
    assert(t.subrange(0, n as int) =~= t);
    while a < n && is_whitespace(out[a])
        invariant
            t == out@,
            n == t.len(),
            a <= n,
            trim_start(t) == trim_start(t.subrange(a as int, n as int)),
        decreases n - a,
    {
        assert(t.subrange(a as int, n as int).drop_first() =~= t.subrange(a + 1, n as int));
        a = a + 1;
    }
    assert(trim_start(t) == t.subrange(a as int, n as int));
    let mut b: usize = n;
    while b > a && is_whitespace(out[b - 1])
        invariant
            t == out@,
            n == t.len(),
            a <= b <= n,
            trim_end(t.subrange(a as int, n as int)) == trim_end(t.subrange(a as int, b as int)),
        decreases b - a,
    {
        assert(t.subrange(a as int, b as int).drop_last() =~= t.subrange(a as int, b - 1));
        b = b - 1;
    }
    assert(trim_end(t.subrange(a as int, b as int)) == t.subrange(a as int, b as int));
    let mut r = String::new();
    let mut k: usize = a;
    while k < b
        invariant
            t == out@,
            a <= k <= b <= n,
            n == t.len(),
            r@ == t.subrange(a as int, k as int),
        decreases b - k,
    {
        push_char(&mut r, out[k]);
        assert(r@ =~= t.subrange(a as int, k + 1));
        k = k + 1;
    }
    r
}

} // verus!
