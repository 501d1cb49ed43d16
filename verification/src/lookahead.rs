//! The lexer and the parser only look ahead: what they make of the input
//! from some position on depends on the input from there on alone. Moving
//! that rest to another position moves the positions they report, and
//! nothing else.
use vstd::prelude::*;
use crate::lexer::{
    TokenType, at, dash_look_end, dash_property, lemma_first_non_space_bounds, lemma_step_progress,
    lex, look_end, quoted_body, skip_spaces, step, tag_end, value_from, value_stops_at, word_end,
};
use crate::node::NodeModel;
use crate::parser::{
    ParseEnv, and_loop1, and_loop2, dangling, is_kind, is_operator, or_loop, p_and, p_atom, p_or,
    p_unary,
};

verus! {

// ---------------------------------------------------------------------------
// Characters.
// ---------------------------------------------------------------------------

/// From position `i` on, `s` reads as `t` does from `i + d` on.
pub open spec fn agree_from(s: Seq<char>, t: Seq<char>, i: int, d: int) -> bool {
    &&& 0 <= i <= s.len()
    &&& 0 <= i + d
    &&& t.len() == s.len() + d
    &&& forall|k: int| i <= k < s.len() ==> #[trigger] s[k] == t[k + d]
}

pub proof fn lemma_agree_at(s: Seq<char>, t: Seq<char>, i: int, d: int, k: int)
    requires
        agree_from(s, t, i, d),
        i <= k,
    ensures
        at(s, k) == at(t, k + d),
{
    if k < s.len() {
        assert(s[k] == t[k + d]);
    }
}

pub proof fn lemma_agree_subrange(s: Seq<char>, t: Seq<char>, i: int, d: int, a: int, b: int)
    requires
        agree_from(s, t, i, d),
        i <= a <= b <= s.len(),
    ensures
        s.subrange(a, b) == t.subrange(a + d, b + d),
{
    assert forall|k: int| 0 <= k < b - a implies s.subrange(a, b)[k] == t.subrange(a + d, b + d)[k] by {
        assert(s[a + k] == t[a + k + d]);
    }
    assert(s.subrange(a, b) =~= t.subrange(a + d, b + d));
}

pub proof fn lemma_shift_skip_spaces(s: Seq<char>, t: Seq<char>, i: int, d: int)
    requires
        agree_from(s, t, i, d),
    ensures
        skip_spaces(s, i) + d == skip_spaces(t, i + d),
    decreases s.len() - i,
{
    if i < s.len() {
        assert(s[i] == t[i + d]);
        lemma_shift_skip_spaces(s, t, i + 1, d);
    }
}

pub proof fn lemma_shift_word_end(s: Seq<char>, t: Seq<char>, i: int, d: int)
    requires
        agree_from(s, t, i, d),
    ensures
        word_end(s, i) + d == word_end(t, i + d),
    decreases s.len() - i,
{
    if i < s.len() {
        assert(s[i] == t[i + d]);
        lemma_shift_word_end(s, t, i + 1, d);
    }
}

pub proof fn lemma_shift_tag_end(s: Seq<char>, t: Seq<char>, i: int, d: int)
    requires
        agree_from(s, t, i, d),
    ensures
        tag_end(s, i) + d == tag_end(t, i + d),
    decreases s.len() - i,
{
    if i < s.len() {
        assert(s[i] == t[i + d]);
        lemma_shift_tag_end(s, t, i + 1, d);
    }
}

pub proof fn lemma_shift_look_end(s: Seq<char>, t: Seq<char>, i: int, d: int)
    requires
        agree_from(s, t, i, d),
    ensures
        look_end(s, i) + d == look_end(t, i + d),
    decreases s.len() - i,
{
    if i < s.len() {
        assert(s[i] == t[i + d]);
        lemma_shift_look_end(s, t, i + 1, d);
    }
}

pub proof fn lemma_shift_dash_look_end(s: Seq<char>, t: Seq<char>, i: int, d: int)
    requires
        agree_from(s, t, i, d),
    ensures
        dash_look_end(s, i) + d == dash_look_end(t, i + d),
    decreases s.len() - i,
{
    if i < s.len() {
        assert(s[i] == t[i + d]);
        lemma_shift_dash_look_end(s, t, i + 1, d);
    }
}

pub proof fn lemma_shift_quoted_body(s: Seq<char>, t: Seq<char>, i: int, d: int)
    requires
        agree_from(s, t, i, d),
    ensures
        quoted_body(t, i + d) == (quoted_body(s, i).0, quoted_body(s, i).1 + d),
    decreases s.len() - i,
{
    if i < s.len() {
        assert(s[i] == t[i + d]);
        if i + 1 < s.len() {
            assert(s[i + 1] == t[i + 1 + d]);
        }
        if s[i] == '"' {
        } else if s[i] == '\\' && i + 1 < s.len() && s[i + 1] == '"' {
            lemma_shift_quoted_body(s, t, i + 2, d);
        } else {
            lemma_shift_quoted_body(s, t, i + 1, d);
        }
    }
}

pub proof fn lemma_shift_value_stops_at(s: Seq<char>, t: Seq<char>, i: int, d: int)
    requires
        agree_from(s, t, i, d),
    ensures
        value_stops_at(s, i) == value_stops_at(t, i + d),
{
    let q = skip_spaces(s, i);
    lemma_shift_skip_spaces(s, t, i, d);
    lemma_first_non_space_bounds(s, i, s.len() as int);
    lemma_agree_at(s, t, i, d, q);
    lemma_agree_at(s, t, i, d, q + 1);
    let dash = at(s, q) == Some('-');
    let j = if dash { q + 1 } else { q };
    assert(j <= s.len());
    lemma_shift_look_end(s, t, j, d);
    let e = look_end(s, j);
    lemma_look_end_bounds(s, j);
    lemma_agree_subrange(s, t, i, d, j, e);
    lemma_agree_at(s, t, i, d, e);
}

pub proof fn lemma_look_end_bounds(s: Seq<char>, j: int)
    requires
        0 <= j <= s.len(),
    ensures
        j <= look_end(s, j) <= s.len(),
    decreases s.len() - j,
{
    if j < s.len() && !crate::lexer::look_stop(s[j]) {
        lemma_look_end_bounds(s, j + 1);
    }
}

pub proof fn lemma_shift_value_from(
    s: Seq<char>,
    t: Seq<char>,
    i: int,
    d: int,
    depth: nat,
    in_quotes: bool,
    acc: Seq<char>,
)
    requires
        agree_from(s, t, i, d),
    ensures
        value_from(t, i + d, depth, in_quotes, acc) == (
            value_from(s, i, depth, in_quotes, acc).0,
            value_from(s, i, depth, in_quotes, acc).1 + d,
        ),
    decreases s.len() - i,
{
    if i < s.len() {
        let c = s[i];
        assert(c == t[i + d]);
        lemma_shift_value_stops_at(s, t, i, d);
        if c == '"' {
            lemma_shift_value_from(s, t, i + 1, d, depth, !in_quotes, acc.push(c));
        } else if !in_quotes && c == '(' {
            lemma_shift_value_from(s, t, i + 1, d, depth + 1, in_quotes, acc.push(c));
        } else if !in_quotes && c == ')' && depth == 0 {
        } else if !in_quotes && c == ')' {
            lemma_shift_value_from(s, t, i + 1, d, (depth - 1) as nat, in_quotes, acc.push(c));
        } else if !in_quotes && depth == 0 && crate::text::char_is_space(c) && value_stops_at(s, i) {
        } else if !in_quotes && depth == 0 && (c == ':' || c == '#') && !crate::text::ends_with_char(
            acc,
            ':',
        ) {
        } else {
            lemma_shift_value_from(s, t, i + 1, d, depth, in_quotes, acc.push(c));
        }
    }
}

pub proof fn lemma_shift_dash_property(s: Seq<char>, t: Seq<char>, p: int, d: int)
    requires
        agree_from(s, t, p, d),
        p + 1 <= s.len(),
    ensures
        dash_property(s, p) == dash_property(t, p + d),
{
    lemma_shift_dash_look_end(s, t, p + 1, d);
    let e = dash_look_end(s, p + 1);
    lemma_dash_look_end_bounds(s, p + 1);
    lemma_shift_skip_spaces(s, t, e, d);
    lemma_first_non_space_bounds(s, e, s.len() as int);
    lemma_agree_at(s, t, p, d, skip_spaces(s, e));
}

pub proof fn lemma_dash_look_end_bounds(s: Seq<char>, j: int)
    requires
        0 <= j <= s.len(),
    ensures
        j <= dash_look_end(s, j) <= s.len(),
    decreases s.len() - j,
{
    if j < s.len() && !crate::lexer::dash_look_stop(s[j]) {
        lemma_dash_look_end_bounds(s, j + 1);
    }
}

/// One step of the lexer, moved: the same tokens, the next position moved
/// by as much.
#[verifier::rlimit(40)]
pub proof fn lemma_shift_step(s: Seq<char>, t: Seq<char>, p: int, d: int)
    requires
        agree_from(s, t, p, d),
        skip_spaces(s, p) < s.len(),
    ensures
        step(t, p + d) == (step(s, p).0, step(s, p).1 + d),
{
    let p0 = skip_spaces(s, p);
    lemma_shift_skip_spaces(s, t, p, d);
    lemma_first_non_space_bounds(s, p, s.len() as int);
    assert(s[p0] == t[p0 + d]);
    lemma_agree_at(s, t, p, d, p0 + 1);
    lemma_agree_at(s, t, p, d, p0 + 2);
    lemma_step_progress(s, p);
    let c = s[p0];
    if c == '(' || c == ')' {
    } else if c == '#' || (c == '-' && at(s, p0 + 1) == Some('#')) {
        let start = if c == '-' { p0 + 2 } else { p0 + 1 };
        lemma_shift_tag_end(s, t, start, d);
        crate::lexer::lemma_tag_end(s, start);
        lemma_agree_subrange(s, t, p, d, start, tag_end(s, start));
    } else if c == '-' && at(s, p0 + 1) == Some('"') {
        lemma_shift_quoted_body(s, t, p0 + 2, d);
    } else {
        if p0 + 1 < s.len() {
            lemma_shift_dash_property(s, t, p0, d);
            crate::lexer::lemma_word_end(s, p0 + 1);
            lemma_shift_word_end(s, t, p0 + 1, d);
            lemma_agree_subrange(s, t, p, d, p0 + 1, word_end(s, p0 + 1));
        }
        if c == '"' {
            lemma_shift_quoted_body(s, t, p0 + 1, d);
        }
        lemma_shift_word_end(s, t, p0, d);
        crate::lexer::lemma_word_end(s, p0);
        let e = word_end(s, p0);
        lemma_agree_subrange(s, t, p, d, p0, e);
        lemma_shift_skip_spaces(s, t, e, d);
        lemma_first_non_space_bounds(s, e, s.len() as int);
        let q = skip_spaces(s, e);
        lemma_agree_at(s, t, p, d, q);
        if q < s.len() {
            lemma_shift_skip_spaces(s, t, q + 1, d);
            lemma_first_non_space_bounds(s, q + 1, s.len() as int);
            lemma_shift_value_from(s, t, skip_spaces(s, q + 1), d, 0, false, Seq::empty());
        }
    }
}

/// The tokens read from `p` on, moved: the same tokens.
pub proof fn lemma_shift_lex(s: Seq<char>, t: Seq<char>, p: int, d: int)
    requires
        agree_from(s, t, p, d),
    ensures
        lex(t, p + d) == lex(s, p),
    decreases s.len() - p,
{
    lemma_shift_skip_spaces(s, t, p, d);
    if skip_spaces(s, p) < s.len() {
        lemma_shift_step(s, t, p, d);
        lemma_step_progress(s, p);
        let e = step(s, p).1;
        lemma_shift_lex(s, t, e, d);
    }
}

// ---------------------------------------------------------------------------
// Tokens.
// ---------------------------------------------------------------------------

/// From position `a` on, the tokens of `e1` are those of `e2` from `a + d`
/// on, and the two parse under the same settings.
pub open spec fn env_agree(e1: ParseEnv, e2: ParseEnv, a: int, d: int) -> bool {
    &&& 0 <= a <= e1.tokens.len()
    &&& 0 <= a + d
    &&& e2.tokens.len() == e1.tokens.len() + d
    &&& forall|k: int| a <= k < e1.tokens.len() ==> #[trigger] e1.tokens[k] == e2.tokens[k + d]
    &&& e1.default_or == e2.default_or
    &&& e1.field_types == e2.field_types
    &&& e1.abbreviations == e2.abbreviations
}

/// A parse result, moved by `d`.
pub open spec fn shifted(o1: Option<(NodeModel, int)>, o2: Option<(NodeModel, int)>, d: int) -> bool {
    match o1 {
        Some((n, e)) => o2 == Some((n, e + d)),
        None => o2 is None,
    }
}

pub proof fn lemma_env_at(e1: ParseEnv, e2: ParseEnv, a: int, d: int, p: int)
    requires
        env_agree(e1, e2, a, d),
        a <= p,
    ensures
        forall|k: TokenType| is_kind(e1, p, k) == is_kind(e2, p + d, k),
        forall|v: Seq<char>| is_operator(e1, p, v) == is_operator(e2, p + d, v),
        dangling(e1, p) == dangling(e2, p + d),
        p < e1.tokens.len() ==> e1.tokens[p] == e2.tokens[p + d],
{
    if p < e1.tokens.len() {
        assert(e1.tokens[p] == e2.tokens[p + d]);
    }
}

pub proof fn lemma_shift_p_or(e1: ParseEnv, e2: ParseEnv, a: int, d: int, p: int)
    requires
        env_agree(e1, e2, a, d),
        a <= p,
    ensures
        shifted(p_or(e1, p), p_or(e2, p + d), d),
    decreases e1.tokens.len() - p, 6int,
{
    lemma_shift_p_and(e1, e2, a, d, p);
    match p_and(e1, p) {
        Some((l, p1)) => if p <= p1 <= e1.tokens.len() {
            lemma_shift_or_loop(e1, e2, a, d, l, p1);
        },
        None => {},
    }
}

pub proof fn lemma_shift_or_loop(e1: ParseEnv, e2: ParseEnv, a: int, d: int, left: NodeModel, p: int)
    requires
        env_agree(e1, e2, a, d),
        a <= p,
    ensures
        shifted(or_loop(e1, left, p), or_loop(e2, left, p + d), d),
    decreases e1.tokens.len() - p, 5int,
{
    lemma_env_at(e1, e2, a, d, p);
    lemma_env_at(e1, e2, a, d, p + 1);
    if 0 <= p < e1.tokens.len() && is_operator(e1, p, "OR"@) && !dangling(e1, p + 1) {
        lemma_shift_p_and(e1, e2, a, d, p + 1);
        match p_and(e1, p + 1) {
            Some((r, p2)) => if p + 1 < p2 <= e1.tokens.len() {
                lemma_shift_or_loop(e1, e2, a, d, NodeModel::Or(Box::new(left), Box::new(r)), p2);
            },
            None => {},
        }
    }
}

pub proof fn lemma_shift_p_and(e1: ParseEnv, e2: ParseEnv, a: int, d: int, p: int)
    requires
        env_agree(e1, e2, a, d),
        a <= p,
    ensures
        shifted(p_and(e1, p), p_and(e2, p + d), d),
    decreases e1.tokens.len() - p, 4int,
{
    lemma_shift_p_unary(e1, e2, a, d, p);
    match p_unary(e1, p) {
        Some((l, p1)) => if p <= p1 <= e1.tokens.len() {
            lemma_shift_and_loop1(e1, e2, a, d, l, p1);
        },
        None => {},
    }
}

pub proof fn lemma_shift_and_loop1(e1: ParseEnv, e2: ParseEnv, a: int, d: int, left: NodeModel, p: int)
    requires
        env_agree(e1, e2, a, d),
        a <= p,
    ensures
        shifted(and_loop1(e1, left, p), and_loop1(e2, left, p + d), d),
    decreases e1.tokens.len() - p, 3int,
{
    lemma_env_at(e1, e2, a, d, p);
    if 0 <= p < e1.tokens.len() && !is_kind(e1, p, TokenType::RightParen) && !is_kind(
        e1,
        p,
        TokenType::LogicalOperator,
    ) {
        lemma_shift_p_unary(e1, e2, a, d, p);
        match p_unary(e1, p) {
            Some((r, p2)) => if p < p2 <= e1.tokens.len() {
                let node = if e1.default_or {
                    NodeModel::Or(Box::new(left), Box::new(r))
                } else {
                    NodeModel::And(Box::new(left), Box::new(r))
                };
                lemma_shift_and_loop1(e1, e2, a, d, node, p2);
            },
            None => {},
        }
    } else {
        lemma_shift_and_loop2(e1, e2, a, d, left, p);
    }
}

pub proof fn lemma_shift_and_loop2(e1: ParseEnv, e2: ParseEnv, a: int, d: int, left: NodeModel, p: int)
    requires
        env_agree(e1, e2, a, d),
        a <= p,
    ensures
        shifted(and_loop2(e1, left, p), and_loop2(e2, left, p + d), d),
    decreases e1.tokens.len() - p, 2int,
{
    lemma_env_at(e1, e2, a, d, p);
    lemma_env_at(e1, e2, a, d, p + 1);
    if 0 <= p < e1.tokens.len() && is_operator(e1, p, "AND"@) && !dangling(e1, p + 1) {
        lemma_shift_p_unary(e1, e2, a, d, p + 1);
        match p_unary(e1, p + 1) {
            Some((r, p2)) => if p + 1 < p2 <= e1.tokens.len() {
                lemma_shift_and_loop1(e1, e2, a, d, NodeModel::And(Box::new(left), Box::new(r)), p2);
            },
            None => {},
        }
    }
}

pub proof fn lemma_shift_p_unary(e1: ParseEnv, e2: ParseEnv, a: int, d: int, p: int)
    requires
        env_agree(e1, e2, a, d),
        a <= p,
    ensures
        shifted(p_unary(e1, p), p_unary(e2, p + d), d),
    decreases e1.tokens.len() - p, 1int,
{
    lemma_env_at(e1, e2, a, d, p);
    lemma_env_at(e1, e2, a, d, p + 1);
    if 0 <= p < e1.tokens.len() {
        if is_kind(e1, p, TokenType::NotOperator) {
            if !dangling(e1, p + 1) {
                lemma_shift_p_atom(e1, e2, a, d, p + 1);
            }
        } else {
            lemma_shift_p_atom(e1, e2, a, d, p);
        }
    }
}

pub proof fn lemma_shift_p_atom(e1: ParseEnv, e2: ParseEnv, a: int, d: int, p: int)
    requires
        env_agree(e1, e2, a, d),
        a <= p,
    ensures
        shifted(p_atom(e1, p), p_atom(e2, p + d), d),
    decreases e1.tokens.len() - p, 0int,
{
    lemma_env_at(e1, e2, a, d, p);
    if 0 <= p < e1.tokens.len() && is_kind(e1, p, TokenType::LeftParen) {
        lemma_shift_p_or(e1, e2, a, d, p + 1);
        match p_or(e1, p + 1) {
            Some((e, p2)) => if p + 1 <= p2 <= e1.tokens.len() {
                lemma_env_at(e1, e2, a, d, p2);
            },
            None => {},
        }
    }
}

// ---------------------------------------------------------------------------
// A different first factor.
// ---------------------------------------------------------------------------

/// `b` is `a` with the node `x1` at the bottom of its left spine replaced by
/// `x2` (or `a` itself): what the loops build on top of a first factor.
pub open spec fn swapped(a: NodeModel, b: NodeModel, x1: NodeModel, x2: NodeModel) -> bool
    decreases a,
{
    if a == b || (a == x1 && b == x2) {
        true
    } else {
        match a {
            NodeModel::Or(al, ar) => match b {
                NodeModel::Or(bl, br) => swapped(*al, *bl, x1, x2) && ar == br,
                _ => false,
            },
            NodeModel::And(al, ar) => match b {
                NodeModel::And(bl, br) => swapped(*al, *bl, x1, x2) && ar == br,
                _ => false,
            },
            _ => false,
        }
    }
}

/// Two parse results, the second moved by `d`, whose nodes are swapped.
pub open spec fn swapped_result(
    o1: Option<(NodeModel, int)>,
    o2: Option<(NodeModel, int)>,
    d: int,
    x1: NodeModel,
    x2: NodeModel,
) -> bool {
    match o1 {
        Some((n1, e)) => o2 matches Some((n2, e2)) && e2 == e + d && swapped(n1, n2, x1, x2),
        None => o2 is None,
    }
}

pub proof fn lemma_swap_or_loop(
    e1: ParseEnv,
    e2: ParseEnv,
    a: int,
    d: int,
    l1: NodeModel,
    l2: NodeModel,
    x1: NodeModel,
    x2: NodeModel,
    p: int,
)
    requires
        env_agree(e1, e2, a, d),
        a <= p,
        swapped(l1, l2, x1, x2),
    ensures
        swapped_result(or_loop(e1, l1, p), or_loop(e2, l2, p + d), d, x1, x2),
    decreases e1.tokens.len() - p,
{
    lemma_env_at(e1, e2, a, d, p);
    lemma_env_at(e1, e2, a, d, p + 1);
    if 0 <= p < e1.tokens.len() && is_operator(e1, p, "OR"@) && !dangling(e1, p + 1) {
        lemma_shift_p_and(e1, e2, a, d, p + 1);
        match p_and(e1, p + 1) {
            Some((r, p2)) => if p + 1 < p2 <= e1.tokens.len() {
                let n1 = NodeModel::Or(Box::new(l1), Box::new(r));
                let n2 = NodeModel::Or(Box::new(l2), Box::new(r));
                assert(swapped(n1, n2, x1, x2));
                lemma_swap_or_loop(e1, e2, a, d, n1, n2, x1, x2, p2);
            },
            None => {},
        }
    }
}

pub proof fn lemma_swap_and_loop2(
    e1: ParseEnv,
    e2: ParseEnv,
    a: int,
    d: int,
    l1: NodeModel,
    l2: NodeModel,
    x1: NodeModel,
    x2: NodeModel,
    p: int,
)
    requires
        env_agree(e1, e2, a, d),
        a <= p,
        swapped(l1, l2, x1, x2),
    ensures
        swapped_result(and_loop2(e1, l1, p), and_loop2(e2, l2, p + d), d, x1, x2),
    decreases e1.tokens.len() - p, 0int,
{
    lemma_env_at(e1, e2, a, d, p);
    lemma_env_at(e1, e2, a, d, p + 1);
    if 0 <= p < e1.tokens.len() && is_operator(e1, p, "AND"@) && !dangling(e1, p + 1) {
        lemma_shift_p_unary(e1, e2, a, d, p + 1);
        match p_unary(e1, p + 1) {
            Some((r, p2)) => if p + 1 < p2 <= e1.tokens.len() {
                let n1 = NodeModel::And(Box::new(l1), Box::new(r));
                let n2 = NodeModel::And(Box::new(l2), Box::new(r));
                assert(swapped(n1, n2, x1, x2));
                lemma_swap_and_loop1(e1, e2, a, d, n1, n2, x1, x2, p2);
            },
            None => {},
        }
    }
}

pub proof fn lemma_swap_and_loop1(
    e1: ParseEnv,
    e2: ParseEnv,
    a: int,
    d: int,
    l1: NodeModel,
    l2: NodeModel,
    x1: NodeModel,
    x2: NodeModel,
    p: int,
)
    requires
        env_agree(e1, e2, a, d),
        a <= p,
        swapped(l1, l2, x1, x2),
    ensures
        swapped_result(and_loop1(e1, l1, p), and_loop1(e2, l2, p + d), d, x1, x2),
    decreases e1.tokens.len() - p, 1int,
{
    lemma_env_at(e1, e2, a, d, p);
    if 0 <= p < e1.tokens.len() && !is_kind(e1, p, TokenType::RightParen) && !is_kind(
        e1,
        p,
        TokenType::LogicalOperator,
    ) {
        lemma_shift_p_unary(e1, e2, a, d, p);
        match p_unary(e1, p) {
            Some((r, p2)) => if p < p2 <= e1.tokens.len() {
                let n1 = if e1.default_or {
                    NodeModel::Or(Box::new(l1), Box::new(r))
                } else {
                    NodeModel::And(Box::new(l1), Box::new(r))
                };
                let n2 = if e1.default_or {
                    NodeModel::Or(Box::new(l2), Box::new(r))
                } else {
                    NodeModel::And(Box::new(l2), Box::new(r))
                };
                assert(swapped(n1, n2, x1, x2));
                lemma_swap_and_loop1(e1, e2, a, d, n1, n2, x1, x2, p2);
            },
            None => {},
        }
    } else {
        lemma_swap_and_loop2(e1, e2, a, d, l1, l2, x1, x2, p);
    }
}

} // verus!
