//! The arguments of the attribute macros, read from their tokens:
//! `range = START..=END` for dispatch tables and `trace = IDENT` for await
//! tracing. Tokens are plain values: identifiers, punctuation with its
//! spacing, literals by their text, and groups, which no argument list here
//! accepts.

use crate::text::chars_of;
use vstd::prelude::*;
use vstd::string::*;

verus! {

/// One token of an attribute's argument list.
pub enum Token {
    /// An identifier (keywords included), by its text.
    Ident(String),
    /// A punctuation character; `joint` when the next character is
    /// punctuation written right after it.
    Punct { ch: char, joint: bool },
    /// A literal, by its text.
    Literal(String),
    /// A delimited group.
    Group,
}

/// Why an argument list is refused.
#[derive(Debug, PartialEq, Eq)]
pub enum ArgsError {
    /// The list does not start with the identifier `range`.
    ExpectedRange,
    /// The list does not start with the identifier `trace`.
    ExpectedTrace,
    /// An `=` is missing.
    ExpectedEquals,
    /// An integer literal is missing.
    ExpectedInteger,
    /// The `..` of a range is missing.
    ExpectedDotDot,
    /// An identifier is missing.
    ExpectedIdent,
    /// Tokens follow a complete argument list.
    UnexpectedToken,
    /// An integer literal's value is no `u64` (too large, or negative).
    InvalidInteger,
}

/// The decimal digits that `syn` reads an integer literal's text as
/// (`LitInt`'s `base10_digits`, with a leading `-` for a negative one), or
/// nothing when the text is not an integer literal.
pub uninterp spec fn int_literal_digits(text: Seq<char>) -> Option<Seq<char>>;

/// Parses `text` as an integer literal with `syn::parse_str::<LitInt>` and
/// gives its decimal digits (`base10_digits`). Its result is named, not
/// stated: the literal grammar (bases, `_` separators, suffixes) is `syn`'s.
#[verifier::external_body]
fn lit_int_digits(text: &str) -> (r: Option<String>)
    ensures
        match r {
            Some(d) => int_literal_digits(text@) == Some(d@),
            None => int_literal_digits(text@) is None,
        },
{
    match syn::parse_str::<syn::LitInt>(text) {
        Ok(lit) => Some(lit.base10_digits().to_string()),
        Err(_) => None,
    }
}

/// Whether `syn` accepts `text` as an identifier (`syn::Ident`: keywords
/// other than raw ones are refused).
pub uninterp spec fn accepted_ident(text: Seq<char>) -> bool;

/// `syn::parse_str::<syn::Ident>(text).is_ok()`. Its result is named: the
/// keyword list is `syn`'s.
#[verifier::external_body]
fn is_accepted_ident(text: &str) -> (r: bool)
    ensures
        r == accepted_ident(text@),
{
    syn::parse_str::<syn::Ident>(text).is_ok()
}

/// The value of a run of decimal digits.
pub open spec fn digits_value(d: Seq<char>) -> nat
    decreases d.len(),
{
    if d.len() == 0 {
        0
    } else {
        digits_value(d.drop_last()) * 10 + ((d.last() as nat) - ('0' as nat)) as nat
    }
}

/// Every character is an ASCII digit.
pub open spec fn all_digits(d: Seq<char>) -> bool {
    forall|i: int| 0 <= i < d.len() ==> '0' <= #[trigger] d[i] <= '9'
}

/// How `u64::from_str` reads `s` (and so `LitInt::base10_parse::<u64>`
/// reads its digits): an optional `+`, then a nonempty run of ASCII digits
/// whose value fits in a `u64`.
pub open spec fn u64_from_str(s: Seq<char>) -> Option<u64> {
    let d = if s.len() > 0 && s[0] == '+' {
        s.drop_first()
    } else {
        s
    };
    if d.len() > 0 && all_digits(d) && digits_value(d) <= u64::MAX {
        Some(digits_value(d) as u64)
    } else {
        None
    }
}

proof fn lemma_digits_value_grows(d: Seq<char>, c: char)
    requires
        '0' <= c <= '9',
    ensures
        digits_value(d.push(c)) >= digits_value(d),
        digits_value(d.push(c)) == digits_value(d) * 10 + ((c as nat) - ('0' as nat)),
{
    assert(d.push(c).drop_last() =~= d);
}

/// `u64::from_str`: an optional `+`, then decimal digits, below 2^64.
pub fn parse_u64(s: &str) -> (r: Option<u64>)
    ensures
        r == u64_from_str(s@),
{
    let cs = chars_of(s);
    let mut start: usize = 0;
    if cs.len() > 0 && cs[0] == '+' {
        start = 1;
    }
    let ghost d = if s@.len() > 0 && s@[0] == '+' {
        s@.drop_first()
    } else {
        s@
    };
    assert(d =~= cs@.subrange(start as int, cs@.len() as int));
    if start == cs.len() {
        return None;
    }
    let mut value: u64 = 0;
    let mut overflow = false;
    let mut k: usize = start;
    while k < cs.len()
        invariant
            start <= k <= cs@.len(),
            cs@ == s@,
            d == (if s@.len() > 0 && s@[0] == '+' {
                s@.drop_first()
            } else {
                s@
            }),
            d == cs@.subrange(start as int, cs@.len() as int),
            all_digits(cs@.subrange(start as int, k as int)),
            !overflow ==> value == digits_value(cs@.subrange(start as int, k as int)),
            overflow ==> digits_value(cs@.subrange(start as int, k as int)) > u64::MAX,
        decreases cs@.len() - k,
    {
        let c = cs[k];
        if c < '0' || c > '9' {
            assert(!all_digits(d)) by {
                assert(d[k - start] == c);
            }
            return None;
        }
        let ghost prefix = cs@.subrange(start as int, k as int);
        assert(cs@.subrange(start as int, k + 1) =~= prefix.push(c));
        proof {
            lemma_digits_value_grows(prefix, c);
        }
        let digit: u64 = (c as u32 - '0' as u32) as u64;
        assert(digit == (c as nat) - ('0' as nat));
        if !overflow {
            if value > (u64::MAX - digit) / 10 {
                overflow = true;
            } else {
                value = value * 10 + digit;
            }
        }
        k = k + 1;
    }
    assert(cs@.subrange(start as int, k as int) =~= d);
    if overflow {
        None
    } else {
        Some(value)
    }
}

/// `t` is the punctuation character `c`.
pub open spec fn is_punct(t: Token, c: char) -> bool {
    t matches Token::Punct { ch, joint } && ch == c
}

/// `t` is the punctuation character `c`, joined to the next one.
pub open spec fn is_joint_punct(t: Token, c: char) -> bool {
    t matches Token::Punct { ch, joint } && ch == c && joint
}

/// `t` is the identifier `name`.
pub open spec fn is_ident(t: Token, name: Seq<char>) -> bool {
    t matches Token::Ident(n) && n@ == name
}

/// The integer literal that starts at `i`: a literal token, or `-`
/// followed by one; where it ends and its decimal digits.
pub open spec fn lit_int_at(ts: Seq<Token>, i: int) -> Option<(int, Seq<char>)> {
    if 0 <= i < ts.len() && ts[i] is Literal {
        match int_literal_digits(ts[i]->Literal_0@) {
            Some(d) => Some((i + 1, d)),
            None => None,
        }
    } else if 0 <= i && i + 1 < ts.len() && is_punct(ts[i], '-') && ts[i + 1] is Literal {
        match int_literal_digits("-"@ + ts[i + 1]->Literal_0@) {
            Some(d) => Some((i + 2, d)),
            None => None,
        }
    } else {
        None
    }
}

/// How `range = START..=END` is read from `ts`.
pub open spec fn range_args(ts: Seq<Token>) -> Result<(u64, u64), ArgsError> {
    if !(ts.len() > 0 && is_ident(ts[0], "range"@)) {
        Err(ArgsError::ExpectedRange)
    } else if !(ts.len() > 1 && is_punct(ts[1], '=')) {
        Err(ArgsError::ExpectedEquals)
    } else {
        match lit_int_at(ts, 2) {
            None => Err(ArgsError::ExpectedInteger),
            Some((i, d1)) => if !(i + 1 < ts.len() && is_joint_punct(ts[i], '.') && is_punct(
                ts[i + 1],
                '.',
            )) {
                Err(ArgsError::ExpectedDotDot)
            } else if !(i + 2 < ts.len() && is_punct(ts[i + 2], '=')) {
                Err(ArgsError::ExpectedEquals)
            } else {
                match lit_int_at(ts, i + 3) {
                    None => Err(ArgsError::ExpectedInteger),
                    Some((j, d2)) => if j < ts.len() {
                        Err(ArgsError::UnexpectedToken)
                    } else {
                        match (u64_from_str(d1), u64_from_str(d2)) {
                            (Some(a), Some(b)) => Ok((a, b)),
                            _ => Err(ArgsError::InvalidInteger),
                        }
                    },
                }
            },
        }
    }
}

fn token_is_punct(t: &Token, c: char) -> (r: bool)
    ensures
        r == is_punct(*t, c),
{
    match t {
        Token::Punct { ch, joint } => *ch == c,
        _ => false,
    }
}

fn token_is_joint_punct(t: &Token, c: char) -> (r: bool)
    ensures
        r == is_joint_punct(*t, c),
{
    match t {
        Token::Punct { ch, joint } => *ch == c && *joint,
        _ => false,
    }
}

fn token_is_ident(t: &Token, name: &str) -> (r: bool)
    ensures
        r == is_ident(*t, name@),
{
    match t {
        Token::Ident(n) => {
            let m = name.to_string();
            *n == m
        },
        _ => false,
    }
}

fn read_lit_int(ts: &Vec<Token>, i: usize) -> (r: Option<(usize, String)>)
    ensures
        match lit_int_at(ts@, i as int) {
            Some((j, d)) => r matches Some((k, s)) && k == j && s@ == d,
            None => r is None,
        },
{
    if i < ts.len() {
        match &ts[i] {
            Token::Literal(text) => {
                return match lit_int_digits(text.as_str()) {
                    Some(d) => Some((i + 1, d)),
                    None => None,
                };
            },
            _ => {},
        }
    }
    if i < ts.len() && i + 1 < ts.len() && token_is_punct(&ts[i], '-') {
        match &ts[i + 1] {
            Token::Literal(text) => {
                let mut neg = "-".to_string();
                neg.append(text.as_str());
                return match lit_int_digits(neg.as_str()) {
                    Some(d) => Some((i + 2, d)),
                    None => None,
                };
            },
            _ => {},
        }
    }
    None
}

/// Read `range = START..=END`: the key `range`, `=`, an integer literal,
/// `..` written as one token pair, `=`, an integer literal, and nothing
/// after; both literals must fit in a `u64`.
pub fn parse_range_args(ts: &Vec<Token>) -> (r: Result<(u64, u64), ArgsError>)
    ensures
        r == range_args(ts@),
{
    if !(ts.len() > 0 && token_is_ident(&ts[0], "range")) {
        return Err(ArgsError::ExpectedRange);
    }
    if !(ts.len() > 1 && token_is_punct(&ts[1], '=')) {
        return Err(ArgsError::ExpectedEquals);
    }
    let (i, d1) = match read_lit_int(ts, 2) {
        Some(x) => x,
        None => {
            return Err(ArgsError::ExpectedInteger);
        },
    };
    if !(i < ts.len() && i + 1 < ts.len() && token_is_joint_punct(&ts[i], '.') && token_is_punct(
        &ts[i + 1],
        '.',
    )) {
        return Err(ArgsError::ExpectedDotDot);
    }
    if !(i + 2 < ts.len() && token_is_punct(&ts[i + 2], '=')) {
        return Err(ArgsError::ExpectedEquals);
    }
    let (j, d2) = match read_lit_int(ts, i + 3) {
        Some(x) => x,
        None => {
            return Err(ArgsError::ExpectedInteger);
        },
    };
    if j < ts.len() {
        return Err(ArgsError::UnexpectedToken);
    }
    match (parse_u64(d1.as_str()), parse_u64(d2.as_str())) {
        (Some(a), Some(b)) => Ok((a, b)),
        _ => Err(ArgsError::InvalidInteger),
    }
}

/// How `trace = IDENT` is read from `ts`: the name of the trace handle.
pub open spec fn trace_args(ts: Seq<Token>) -> Result<Seq<char>, ArgsError> {
    if !(ts.len() > 0 && is_ident(ts[0], "trace"@)) {
        Err(ArgsError::ExpectedTrace)
    } else if !(ts.len() > 1 && is_punct(ts[1], '=')) {
        Err(ArgsError::ExpectedEquals)
    } else if !(ts.len() > 2 && (ts[2] matches Token::Ident(x) && accepted_ident(x@))) {
        Err(ArgsError::ExpectedIdent)
    } else if ts.len() > 3 {
        Err(ArgsError::UnexpectedToken)
    } else {
        Ok(ts[2]->Ident_0@)
    }
}

/// Read `trace = IDENT`: the key `trace`, `=`, an identifier that is not a
/// keyword, and nothing after; gives the identifier.
pub fn parse_trace_args(ts: &Vec<Token>) -> (r: Result<String, ArgsError>)
    ensures
        match trace_args(ts@) {
            Ok(name) => r matches Ok(s) && s@ == name,
            Err(e) => r == Err::<String, ArgsError>(e),
        },
{
    if !(ts.len() > 0 && token_is_ident(&ts[0], "trace")) {
        return Err(ArgsError::ExpectedTrace);
    }
    if !(ts.len() > 1 && token_is_punct(&ts[1], '=')) {
        return Err(ArgsError::ExpectedEquals);
    }
    let name = if ts.len() > 2 {
        match &ts[2] {
            Token::Ident(x) => {
                if is_accepted_ident(x.as_str()) {
                    x.clone()
                } else {
                    return Err(ArgsError::ExpectedIdent);
                }
            },
            _ => {
                return Err(ArgsError::ExpectedIdent);
            },
        }
    } else {
        return Err(ArgsError::ExpectedIdent);
    };
    if ts.len() > 3 {
        return Err(ArgsError::UnexpectedToken);
    }
    Ok(name)
}

/// The message of an argument error.
pub open spec fn args_message(e: ArgsError) -> Seq<char> {
    match e {
        ArgsError::ExpectedRange => "expected `range`"@,
        ArgsError::ExpectedTrace => "expected `trace = IDENT`"@,
        ArgsError::ExpectedEquals => "expected `=`"@,
        ArgsError::ExpectedInteger => "expected integer literal"@,
        ArgsError::ExpectedDotDot => "expected `..`"@,
        ArgsError::ExpectedIdent => "expected identifier"@,
        ArgsError::UnexpectedToken => "unexpected token"@,
        ArgsError::InvalidInteger => "integer literal does not fit in u64"@,
    }
}

impl ArgsError {
    /// The error's message.
    pub fn message(&self) -> (r: String)
        ensures
            r@ == args_message(*self),
    {
        match self {
            ArgsError::ExpectedRange => "expected `range`".to_string(),
            ArgsError::ExpectedTrace => "expected `trace = IDENT`".to_string(),
            ArgsError::ExpectedEquals => "expected `=`".to_string(),
            ArgsError::ExpectedInteger => "expected integer literal".to_string(),
            ArgsError::ExpectedDotDot => "expected `..`".to_string(),
            ArgsError::ExpectedIdent => "expected identifier".to_string(),
            ArgsError::UnexpectedToken => "unexpected token".to_string(),
            ArgsError::InvalidInteger => "integer literal does not fit in u64".to_string(),
        }
    }
}

} // verus!
