//! The syntax of decimal floating-point literals that std's `f64` parser
//! accepts, as its documentation gives it:
//!
//! ```text
//! Float  ::= Sign? ( 'inf' | 'infinity' | 'nan' | Number )
//! Number ::= ( Digit+ | Digit+ '.' Digit* | Digit* '.' Digit+ ) Exp?
//! Exp    ::= 'e' Sign? Digit+
//! Sign   ::= [+-]
//! Digit  ::= [0-9]
//! ```
//!
//! with letters matched without regard to ASCII case.
use vstd::prelude::*;
use crate::text::chars_of;

verus! {

pub open spec fn is_digit(c: char) -> bool {
    '0' <= c && c <= '9'
}

pub open spec fn is_sign(c: char) -> bool {
    c == '+' || c == '-'
}

/// `c` with an ASCII capital letter replaced by its small letter.
pub open spec fn ascii_lower(c: char) -> char {
    if 'A' <= c && c <= 'Z' {
        ((c as u32) + 32) as char
    } else {
        c
    }
}

/// Whether `s` spells `word` (given in small letters) regardless of ASCII case.
pub open spec fn spells(s: Seq<char>, word: Seq<char>) -> bool {
    s.len() == word.len() && forall|i: int| 0 <= i < s.len() ==> ascii_lower(#[trigger] s[i]) == word[i]
}

/// The end of the run of digits that starts at `i`.
pub open spec fn digits_end(s: Seq<char>, i: int) -> int
    decreases s.len() - i,
{
    if 0 <= i < s.len() && is_digit(s[i]) {
        digits_end(s, i + 1)
    } else {
        i
    }
}

/// Whether `s[j..]` is the rest of an exponent after its `e`: a sign at most,
/// then one digit or more, up to the end.
pub open spec fn exponent_rest(s: Seq<char>, j: int) -> bool {
    let k = if j < s.len() && is_sign(s[j]) { j + 1 } else { j };
    digits_end(s, k) > k && digits_end(s, k) == s.len()
}

/// Whether `s` is a `Number` of the grammar.
pub open spec fn decimal_syntax(s: Seq<char>) -> bool {
    let a = digits_end(s, 0);
    let after = if a < s.len() && s[a] == '.' { digits_end(s, a + 1) } else { a };
    let frac = if a < s.len() && s[a] == '.' { after - (a + 1) } else { 0 };
    &&& a + frac > 0
    &&& (after == s.len() || ((s[after] == 'e' || s[after] == 'E') && exponent_rest(s, after + 1)))
}

/// Whether `s` is a `Float` of the grammar: whether `str::parse::<f64>`
/// accepts it.
pub open spec fn float_syntax(s: Seq<char>) -> bool {
    let body = if s.len() > 0 && is_sign(s[0]) { s.drop_first() } else { s };
    ||| spells(body, seq!['i', 'n', 'f'])
    ||| spells(body, seq!['i', 'n', 'f', 'i', 'n', 'i', 't', 'y'])
    ||| spells(body, seq!['n', 'a', 'n'])
    ||| decimal_syntax(body)
}

proof fn lemma_digits_end_bounds(s: Seq<char>, i: int)
    requires
        0 <= i <= s.len(),
    ensures
        i <= digits_end(s, i) <= s.len(),
    decreases s.len() - i,
{
    if i < s.len() && is_digit(s[i]) {
        lemma_digits_end_bounds(s, i + 1);
    }
}

fn digit_char(c: char) -> (b: bool)
    ensures
        b == is_digit(c),
{
    '0' <= c && c <= '9'
}

fn lower_is(c: char, w: char) -> (b: bool)
    ensures
        b == (ascii_lower(c) == w),
{
    if 'A' <= c && c <= 'Z' {
        let n: u32 = (c as u32) + 32;
        n == (w as u32)
    } else {
        c == w
    }
}

fn run_of_digits(v: &Vec<char>, i: usize) -> (e: usize)
    requires
        i <= v.len(),
    ensures
        e as int == digits_end(v@, i as int),
        i <= e <= v.len(),
{
    let mut e: usize = i;
    while e < v.len() && digit_char(v[e])
        invariant
            i <= e <= v.len(),
            digits_end(v@, i as int) == digits_end(v@, e as int),
        decreases v.len() - e,
    {
        e += 1;
    }
    e
}

/// Whether `v[from..]` spells `word` regardless of ASCII case.
fn spells_from(v: &Vec<char>, from: usize, word: &Vec<char>) -> (b: bool)
    requires
        from <= v.len(),
    ensures
        b == spells(v@.skip(from as int), word@),
{
    if v.len() - from != word.len() {
        return false;
    }
    let mut i: usize = 0;
    while i < word.len()
        invariant
            from <= v.len(),
            v.len() - from == word.len(),
            0 <= i <= word.len(),
            forall|k: int| 0 <= k < i ==> ascii_lower(#[trigger] v@.skip(from as int)[k]) == word@[k],
        decreases word.len() - i,
    {
        if !lower_is(v[from + i], word[i]) {
            assert(ascii_lower(v@.skip(from as int)[i as int]) != word@[i as int]);
            return false;
        }
        i += 1;
    }
    true
}

fn decimal_from(v: &Vec<char>, from: usize) -> (b: bool)
    requires
        from <= v.len(),
    ensures
        b == decimal_syntax(v@.skip(from as int)),
{
    let ghost s = v@.skip(from as int);
    let a: usize = run_of_digits(v, from);
    proof {
        lemma_digits_shift(v@, from as int, from as int);
    }
    let mut after: usize = a;
    let mut frac: usize = 0;
    if a < v.len() && v[a] == '.' {
        after = run_of_digits(v, a + 1);
        frac = after - (a + 1);
        proof {
            lemma_digits_shift(v@, from as int, a + 1);
        }
    }
    if (a - from) + frac == 0 {
        return false;
    }
    if after == v.len() {
        return true;
    }
    if v[after] != 'e' && v[after] != 'E' {
        return false;
    }
    let mut k: usize = after + 1;
    if k < v.len() && (v[k] == '+' || v[k] == '-') {
        k += 1;
    }
    let e: usize = run_of_digits(v, k);
    proof {
        lemma_digits_shift(v@, from as int, k as int);
    }
    e > k && e == v.len()
}

proof fn lemma_digits_shift(s: Seq<char>, from: int, i: int)
    requires
        0 <= from <= i <= s.len(),
    ensures
        digits_end(s.skip(from), i - from) == digits_end(s, i) - from,
    decreases s.len() - i,
{
    if i < s.len() && is_digit(s[i]) {
        lemma_digits_shift(s, from, i + 1);
    }
}

/// Whether `str::parse::<f64>` accepts `s`, decided by the grammar above.
pub fn is_float_literal(s: &str) -> (b: bool)
    ensures
        b == float_syntax(s@),
{
    let v = chars_of(s);
    let from: usize = if v.len() > 0 && (v[0] == '+' || v[0] == '-') { 1 } else { 0 };
    assert(v@.skip(from as int) == (if v@.len() > 0 && is_sign(v@[0]) { v@.drop_first() } else { v@ }));
    let inf = vec!['i', 'n', 'f'];
    let infinity = vec!['i', 'n', 'f', 'i', 'n', 'i', 't', 'y'];
    let nan = vec!['n', 'a', 'n'];
    assert(inf@ == seq!['i', 'n', 'f']);
    assert(infinity@ == seq!['i', 'n', 'f', 'i', 'n', 'i', 't', 'y']);
    assert(nan@ == seq!['n', 'a', 'n']);
    spells_from(&v, from, &inf) || spells_from(&v, from, &infinity) || spells_from(&v, from, &nan)
        || decimal_from(&v, from)
}

} // verus!
