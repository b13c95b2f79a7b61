//! The handshake-name grammar: one or two of the letters `I`, `X`, `K`, `N`
//! (either case) forming a known pattern, an optional `fallback`, and an
//! optional `+pskN` suffix.
use vstd::prelude::*;
use vstd::string::StringSliceAdditionalSpecFns;

verus! {

/// Why a handshake name was refused.
#[derive(Debug, Clone, Copy, PartialEq, Eq, Structural)]
pub enum PatternError {
    /// The letters do not name a known pattern, or the text after them is
    /// neither empty nor `fallback`.
    InvalidPattern,
    /// The text after `+` is not `psk` followed by a number.
    InvalidPskSuffix,
}

/// A token of a handshake name.
#[derive(Debug, Clone, Copy, PartialEq, Eq)]
pub enum Tokens {
    X,
    K,
    N,
    I,
    Fallback,
    Psk(u8),
}

pub open spec fn is_pattern_letter(c: u8) -> bool {
    c == 'I' as u8 || c == 'X' as u8 || c == 'K' as u8 || c == 'N' as u8 || c == 'i' as u8 || c
        == 'x' as u8 || c == 'k' as u8 || c == 'n' as u8
}

/// The upper-case form of an ASCII letter; other bytes are unchanged.
pub open spec fn upper(c: u8) -> u8 {
    if 'a' as u8 <= c && c <= 'z' as u8 {
        (c - 32) as u8
    } else {
        c
    }
}

/// The lower-case form of an ASCII letter; other bytes are unchanged.
pub open spec fn lower(c: u8) -> u8 {
    if 'A' as u8 <= c && c <= 'Z' as u8 {
        (c + 32) as u8
    } else {
        c
    }
}

/// The token of a pattern letter.
pub open spec fn letter_token(c: u8) -> Tokens {
    if upper(c) == 'X' as u8 {
        Tokens::X
    } else if upper(c) == 'K' as u8 {
        Tokens::K
    } else if upper(c) == 'N' as u8 {
        Tokens::N
    } else {
        Tokens::I
    }
}

/// Whether the (upper-case) letters `l` name a known pattern: `N`, `K`, `X`,
/// or a first letter of `N`, `X`, `K`, `I` with a second of `N`, `K`, `X`.
pub open spec fn known_name(l: Seq<u8>) -> bool {
    let second_ok = |c: u8| c == 'N' as u8 || c == 'K' as u8 || c == 'X' as u8;
    if l.len() == 1 {
        second_ok(l[0])
    } else if l.len() == 2 {
        (l[0] == 'N' as u8 || l[0] == 'X' as u8 || l[0] == 'K' as u8 || l[0] == 'I' as u8)
            && second_ok(l[1])
    } else {
        false
    }
}

/// The word `fallback`.
pub open spec fn fallback_word() -> Seq<u8> {
    seq![
        'f' as u8,
        'a' as u8,
        'l' as u8,
        'l' as u8,
        'b' as u8,
        'a' as u8,
        'c' as u8,
        'k' as u8,
    ]
}

/// Whether `s` is `fallback`, in any case.
pub open spec fn is_fallback_word(s: Seq<u8>) -> bool {
    s.len() == 8 && forall|i: int| 0 <= i < 8 ==> lower(s[i]) == fallback_word()[i]
}

/// The number of pattern letters at the start of `b`.
pub open spec fn letter_run(b: Seq<u8>) -> nat
    decreases b.len(),
{
    if b.len() > 0 && is_pattern_letter(b[0]) {
        1 + letter_run(b.drop_first())
    } else {
        0
    }
}

/// The index of the first `+` in `b`, or its length when there is none.
pub open spec fn plus_index(b: Seq<u8>) -> nat
    decreases b.len(),
{
    if b.len() == 0 || b[0] == '+' as u8 {
        0
    } else {
        1 + plus_index(b.drop_first())
    }
}

pub open spec fn is_digit(c: u8) -> bool {
    '0' as u8 <= c && c <= '9' as u8
}

/// The number that the decimal digits `d` spell.
pub open spec fn decimal_value(d: Seq<u8>) -> nat
    decreases d.len(),
{
    if d.len() == 0 {
        0
    } else {
        decimal_value(d.drop_last()) * 10 + (d.last() - '0' as u8) as nat
    }
}

/// Whether `d` is a non-empty run of decimal digits.
pub open spec fn is_decimal(d: Seq<u8>) -> bool {
    d.len() > 0 && forall|i: int| 0 <= i < d.len() ==> is_digit(d[i])
}

/// The tokens of the part before `+`, or `None` when it is not a known
/// pattern optionally followed by `fallback`.
pub open spec fn prefix_tokens(pre: Seq<u8>) -> Option<Seq<Tokens>> {
    let n = letter_run(pre);
    let letters = pre.take(n as int);
    let rest = pre.skip(n as int);
    if known_name(letters.map_values(|c: u8| upper(c))) && (rest.len() == 0 || is_fallback_word(
        rest,
    )) {
        Some(
            letters.map_values(|c: u8| letter_token(c)) + if rest.len() == 0 {
                seq![]
            } else {
                seq![Tokens::Fallback]
            },
        )
    } else {
        None
    }
}

/// The pre-shared-key number of the part after `+`, or `None` when it is
/// not `psk` followed by a decimal number below 256.
pub open spec fn psk_suffix(suf: Seq<u8>) -> Option<u8> {
    if suf.len() > 3 && suf[0] == 'p' as u8 && suf[1] == 's' as u8 && suf[2] == 'k' as u8
        && is_decimal(suf.skip(3)) && decimal_value(suf.skip(3)) < 256 {
        Some(decimal_value(suf.skip(3)) as u8)
    } else {
        None
    }
}

/// What `Tokens::new` gives for the bytes `b`.
pub open spec fn parse_tokens(b: Seq<u8>) -> Result<Seq<Tokens>, PatternError> {
    let p = plus_index(b);
    match prefix_tokens(b.take(p as int)) {
        None => Err(PatternError::InvalidPattern),
        Some(t) => if p == b.len() {
            Ok(t)
        } else {
            match psk_suffix(b.skip((p + 1) as int)) {
                Some(n) => Ok(t.push(Tokens::Psk(n))),
                None => Err(PatternError::InvalidPskSuffix),
            }
        },
    }
}

/// The index of the first `+` in `b`, or its length.
pub(crate) fn find_plus(b: &[u8]) -> (r: usize)
    ensures
        r == plus_index(b@),
        r <= b@.len(),
{
    let mut i: usize = 0;
    assert(b@.skip(0) =~= b@);
    while i < b.len() && b[i] != '+' as u8
        invariant
            i <= b@.len(),
            plus_index(b@) == i + plus_index(b@.skip(i as int)),
        decreases b@.len() - i,
    {
        assert(b@.skip(i as int).drop_first() =~= b@.skip(i + 1));
        i = i + 1;
    }
    i
}

/// The index of the first `+` in `b[start..]`, counted from `start`, plus
/// `start`: the length of `b` when there is none.
pub(crate) fn find_plus_from(b: &[u8], start: usize) -> (r: usize)
    requires
        start <= b@.len(),
    ensures
        r == start + plus_index(b@.skip(start as int)),
        r <= b@.len(),
{
    let mut i: usize = start;
    assert(b@.skip(start as int).skip(0) =~= b@.skip(start as int));
    while i < b.len() && b[i] != '+' as u8
        invariant
            start <= i <= b@.len(),
            plus_index(b@.skip(start as int)) == (i - start) + plus_index(b@.skip(i as int)),
        decreases b@.len() - i,
    {
        assert(b@.skip(i as int).drop_first() =~= b@.skip(i + 1));
        i = i + 1;
    }
    i
}

/// The number of pattern letters at the start of `b[..end]`.
fn count_letters(b: &[u8], end: usize) -> (r: usize)
    requires
        end <= b@.len(),
    ensures
        r == letter_run(b@.take(end as int)),
        r <= end,
{
    let ghost pre = b@.take(end as int);
    let mut i: usize = 0;
    assert(pre.skip(0) =~= pre);
    while i < end && is_letter(b[i])
        invariant
            i <= end,
            end <= b@.len(),
            pre == b@.take(end as int),
            letter_run(pre) == i + letter_run(pre.skip(i as int)),
        decreases end - i,
    {
        assert(pre.skip(i as int).drop_first() =~= pre.skip(i + 1));
        i = i + 1;
    }
    i
}

fn is_letter(c: u8) -> (r: bool)
    ensures
        r == is_pattern_letter(c),
{
    c == 'I' as u8 || c == 'X' as u8 || c == 'K' as u8 || c == 'N' as u8 || c == 'i' as u8 || c
        == 'x' as u8 || c == 'k' as u8 || c == 'n' as u8
}

pub(crate) fn to_upper(c: u8) -> (r: u8)
    ensures
        r == upper(c),
{
    if 'a' as u8 <= c && c <= 'z' as u8 {
        c - 32
    } else {
        c
    }
}

fn to_lower(c: u8) -> (r: u8)
    ensures
        r == lower(c),
{
    if 'A' as u8 <= c && c <= 'Z' as u8 {
        c + 32
    } else {
        c
    }
}

fn token_of_letter(c: u8) -> (r: Tokens)
    ensures
        r == letter_token(c),
{
    let u = to_upper(c);
    if u == 'X' as u8 {
        Tokens::X
    } else if u == 'K' as u8 {
        Tokens::K
    } else if u == 'N' as u8 {
        Tokens::N
    } else {
        Tokens::I
    }
}

/// Whether `b[start..end]` is `fallback` in any case.
fn is_fallback_at(b: &[u8], start: usize, end: usize) -> (r: bool)
    requires
        start <= end <= b@.len(),
    ensures
        r == is_fallback_word(b@.subrange(start as int, end as int)),
{
    let ghost w = b@.subrange(start as int, end as int);
    if end - start != 8 {
        return false;
    }
    let word: [u8; 8] = [
        'f' as u8,
        'a' as u8,
        'l' as u8,
        'l' as u8,
        'b' as u8,
        'a' as u8,
        'c' as u8,
        'k' as u8,
    ];
    assert(word@ =~= fallback_word());
    let mut i: usize = 0;
    while i < 8
        invariant
            i <= 8,
            end - start == 8,
            start <= end <= b@.len(),
            w == b@.subrange(start as int, end as int),
            word@ == fallback_word(),
            forall|j: int| 0 <= j < i ==> lower(w[j]) == fallback_word()[j],
        decreases 8 - i,
    {
        if to_lower(b[start + i]) != word[i] {
            return false;
        }
        i = i + 1;
    }
    true
}

/// The decimal number spelled by `b[start..]`, or `None` when that is not a
/// non-empty run of digits or its value exceeds `usize::MAX`.
pub(crate) fn parse_decimal(b: &[u8], start: usize) -> (r: Option<usize>)
    requires
        start <= b@.len(),
    ensures
        r == (if is_decimal(b@.skip(start as int)) && decimal_value(b@.skip(start as int))
            <= usize::MAX {
            Some(decimal_value(b@.skip(start as int)) as usize)
        } else {
            None
        }),
{
    let ghost d = b@.skip(start as int);
    let len = b.len();
    if start == len {
        return None;
    }
    let mut value: usize = 0;
    let mut big = false;
    let mut i: usize = start;
    while i < len
        invariant
            start <= i <= len,
            len == b@.len(),
            d =~= b@.skip(start as int),
            forall|j: int| start <= j < i ==> is_digit(b@[j]),
            !big ==> value as nat == decimal_value(d.take(i - start)),
            big ==> decimal_value(d.take(i - start)) > usize::MAX,
        decreases len - i,
    {
        let c = b[i];
        if !('0' as u8 <= c && c <= '9' as u8) {
            assert(d[i - start] == c);
            return None;
        }
        assert(d.take(i + 1 - start).drop_last() =~= d.take(i - start));
        assert(d.take(i + 1 - start).last() == c);
        let digit = (c - '0' as u8) as usize;
        if !big {
            if value > (usize::MAX - digit) / 10 {
                assert(value * 10 + digit > usize::MAX) by (nonlinear_arith)
                    requires
                        value > (usize::MAX - digit) / 10,
                        digit <= 9,
                ;
                big = true;
            } else {
                assert(value * 10 + digit <= usize::MAX) by (nonlinear_arith)
                    requires
                        value <= (usize::MAX - digit) / 10,
                        digit <= 9,
                ;
                value = value * 10 + digit;
            }
        } else {
            assert(decimal_value(d.take(i + 1 - start)) >= decimal_value(d.take(i - start))) by (
            nonlinear_arith)
                requires
                    decimal_value(d.take(i + 1 - start)) == decimal_value(d.take(i - start)) * 10
                        + (c - '0' as u8) as nat,
            ;
        }
        i = i + 1;
    }
    assert(d.take(len - start) =~= d);
    assert forall|j: int| 0 <= j < d.len() implies is_digit(d[j]) by {
        assert(d[j] == b@[start + j]);
    }
    if big {
        return None;
    }
    Some(value)
}

/// The number after `psk` in `b[start..]`, as `psk_suffix` gives it.
fn parse_psk_suffix(b: &[u8], start: usize) -> (r: Option<u8>)
    requires
        start <= b@.len(),
    ensures
        r == psk_suffix(b@.skip(start as int)),
{
    let ghost suf = b@.skip(start as int);
    if b.len() - start <= 3 || b[start] != 'p' as u8 || b[start + 1] != 's' as u8 || b[start + 2]
        != 'k' as u8 {
        return None;
    }
    assert(suf.skip(3) =~= b@.skip(start + 3));
    match parse_decimal(b, start + 3) {
        Some(v) => if v < 256 {
            Some(v as u8)
        } else {
            None
        },
        None => None,
    }
}

impl Tokens {
    /// Parses a handshake name such as `XX`, `IKfallback+psk3` or
    /// `xxfallback+psk2` into its tokens: the pattern letters (upper-cased),
    /// `Fallback` if present, and `Psk(n)` if a suffix is present.
    pub fn new(patterns: &str) -> (r: Result<Vec<Tokens>, PatternError>)
        ensures
            match parse_tokens(patterns.spec_bytes()) {
                Ok(t) => r is Ok && r->Ok_0@ == t,
                Err(e) => r == Err::<Vec<Tokens>, PatternError>(e),
            },
    {
        let b = patterns.as_bytes();
        let p = find_plus(b);
        let n = count_letters(b, p);
        let ghost pre = b@.take(p as int);
        let ghost letters = pre.take(n as int);
        let ghost rest = pre.skip(n as int);
        assert(rest =~= b@.subrange(n as int, p as int));
        let ghost upper_letters = letters.map_values(|c: u8| upper(c));
        let known = if n == 1 {
            let c = to_upper(b[0]);
            c == 'N' as u8 || c == 'K' as u8 || c == 'X' as u8
        } else if n == 2 {
            let c0 = to_upper(b[0]);
            let c1 = to_upper(b[1]);
            (c0 == 'N' as u8 || c0 == 'X' as u8 || c0 == 'K' as u8 || c0 == 'I' as u8) && (c1
                == 'N' as u8 || c1 == 'K' as u8 || c1 == 'X' as u8)
        } else {
            false
        };
        assert(known == known_name(upper_letters));
        let fallback = n < p;
        if !known || (fallback && !is_fallback_at(b, n, p)) {
            return Err(PatternError::InvalidPattern);
        }
        let mut out: Vec<Tokens> = Vec::new();
        let mut i: usize = 0;
        while i < n
            invariant
                i <= n,
                n <= p <= b@.len(),
                letters == b@.take(p as int).take(n as int),
                out@ == letters.take(i as int).map_values(|c: u8| letter_token(c)),
            decreases n - i,
        {
            out.push(token_of_letter(b[i]));
            assert(letters.take(i + 1).map_values(|c: u8| letter_token(c)) =~= letters.take(
                i as int,
            ).map_values(|c: u8| letter_token(c)).push(letter_token(b@[i as int])));
            i = i + 1;
        }
        assert(letters.take(n as int) =~= letters);
        if fallback {
            out.push(Tokens::Fallback);
        }
        assert(prefix_tokens(pre) == Some(out@)) by {
            if fallback {
                assert(out@ =~= letters.map_values(|c: u8| letter_token(c)) + seq![Tokens::Fallback]);
            } else {
                assert(out@ =~= letters.map_values(|c: u8| letter_token(c)) + seq![]);
            }
        }
        if p == b.len() {
            return Ok(out);
        }
        match parse_psk_suffix(b, p + 1) {
            Some(k) => {
                out.push(Tokens::Psk(k));
                Ok(out)
            },
            None => Err(PatternError::InvalidPskSuffix),
        }
    }
}

/// The single token named exactly `name`: `X`, `K`, `N`, `I`, `fallback`,
/// or `+psk0` to `+psk3`.
pub open spec fn token_named(name: Seq<u8>) -> Option<Tokens> {
    if name == seq!['X' as u8] {
        Some(Tokens::X)
    } else if name == seq!['K' as u8] {
        Some(Tokens::K)
    } else if name == seq!['N' as u8] {
        Some(Tokens::N)
    } else if name == seq!['I' as u8] {
        Some(Tokens::I)
    } else if name == fallback_word() {
        Some(Tokens::Fallback)
    } else if name.len() == 5 && name[0] == '+' as u8 && name[1] == 'p' as u8 && name[2] == 's' as u8
        && name[3] == 'k' as u8 && '0' as u8 <= name[4] <= '3' as u8 {
        Some(Tokens::Psk((name[4] - '0' as u8) as u8))
    } else {
        None
    }
}

impl Tokens {
    /// The single token named exactly `s`.
    pub fn from_name(s: &str) -> (r: Result<Tokens, PatternError>)
        ensures
            match token_named(s.spec_bytes()) {
                Some(t) => r == Ok::<Tokens, PatternError>(t),
                None => r == Err::<Tokens, PatternError>(PatternError::InvalidPattern),
            },
    {
        let b = s.as_bytes();
        let len = b.len();
        if len == 1 {
            let c = b[0];
            assert(b@ =~= seq![c]);
            if c == 'X' as u8 {
                return Ok(Tokens::X);
            } else if c == 'K' as u8 {
                return Ok(Tokens::K);
            } else if c == 'N' as u8 {
                return Ok(Tokens::N);
            } else if c == 'I' as u8 {
                return Ok(Tokens::I);
            }
            return Err(PatternError::InvalidPattern);
        }
        if len == 8 {
            let word: [u8; 8] = [
                'f' as u8,
                'a' as u8,
                'l' as u8,
                'l' as u8,
                'b' as u8,
                'a' as u8,
                'c' as u8,
                'k' as u8,
            ];
            assert(word@ =~= fallback_word());
            let mut i: usize = 0;
            while i < 8
                invariant
                    i <= 8,
                    b@.len() == 8,
                    b@ == s.spec_bytes(),
                    word@ == fallback_word(),
                    forall|j: int| 0 <= j < i ==> b@[j] == word@[j],
                decreases 8 - i,
            {
                if b[i] != word[i] {
                    assert(b@[i as int] != fallback_word()[i as int]);
                    assert(b@ != fallback_word());
                    return Err(PatternError::InvalidPattern);
                }
                i = i + 1;
            }
            assert(b@ =~= fallback_word());
            return Ok(Tokens::Fallback);
        }
        if len == 5 && b[0] == '+' as u8 && b[1] == 'p' as u8 && b[2] == 's' as u8 && b[3] == 'k' as u8
            && '0' as u8 <= b[4] && b[4] <= '3' as u8 {
            return Ok(Tokens::Psk(b[4] - '0' as u8));
        }
        Err(PatternError::InvalidPattern)
    }
}

impl std::str::FromStr for Tokens {
    type Err = PatternError;

    fn from_str(s: &str) -> Result<Self, Self::Err> {
        Tokens::from_name(s)
    }
}

} // verus!
