//! Properties that hold across the library's functions.
use vstd::prelude::*;
use crate::filter::{
    DATE_PATTERN, NUMBER_PATTERN, field_of, filter_model, is_custom_name, resolved_property, type_of,
    number_condition, date_condition,
};
use crate::node::{FilterModel, NodeModel};
use crate::tokenizer::{NoteNode, children_text, note_text};
use crate::pattern::regex_captures;
use crate::structured::{QueryModel, combined, members, negated_condition, negated_filter, structured};
use crate::parser::{
    ParseEnv, and_loop1, and_loop2, and_to_or, contains_and_node, is_kind, p_and, p_atom, p_or, p_unary,
    pure_content_and, query_env, query_tree, token_filter, without_metadata,
};
use crate::lexer::{
    MATCH_OR_PATTERN, TokenModel, TokenType, dash_look_end, dash_look_stop, default_operator_of,
    filter_token, lex, lexed_input, metadata_token, plain_token, query_tokens, step, skip_spaces,
    lemma_first_non_space_bounds, lemma_quoted_body, lemma_step_progress, lemma_tag_end, quoted,
    quoted_body, lemma_value_from, tag_end,
    value_from, word_char, word_end,
};
use crate::lookahead::{
    agree_from, lemma_agree_subrange, lemma_shift_lex, lemma_shift_quoted_body, lemma_shift_tag_end, lemma_shift_skip_spaces, lemma_shift_value_from, swapped,
    lemma_swap_and_loop1, lemma_swap_or_loop, env_agree, swapped_result,
};
use crate::pattern::regex_is_match;
use crate::text::{ascii_upper, char_is_alnum, is_ascii_char, is_ascii_text, lowercase, trimmed, uppercase};

verus! {

/// Distinctness facts about the condition names.
proof fn lemma_condition_names()
    ensures
        "is"@.len() == 2,
        "isNot"@.len() == 5,
        "contains"@.len() == 8,
        "doesNotContain"@.len() == 14,
        "containsAnyOf"@.len() == 13,
        "doesNotContainAnyOf"@.len() == 19,
        "endsWith"@.len() == 8,
        "doesNotEndWith"@.len() == 14,
        "startsWith"@.len() == 10,
        "doesNotStartWith"@.len() == 16,
        "isAnyOf"@.len() == 7,
        "isNotAnyOf"@.len() == 10,
        "greaterThan"@.len() == 11,
        "isLessThanOrEqualTo"@.len() == 19,
        "lessThan"@.len() == 8,
        "isGreaterThanOrEqualTo"@.len() == 22,
        "includes"@.len() == 8,
        "doesNotInclude"@.len() == 14,
        "includeAnyOf"@.len() == 12,
        "excludeAnyOf"@.len() == 12,
        "includeAllOf"@.len() == 12,
        "excludeAllOf"@.len() == 12,
        "before"@.len() == 6,
        "after"@.len() == 5,
        "onOrBefore"@.len() == 10,
        "onOrAfter"@.len() == 9,
        "in"@.len() == 2,
        "notIn"@.len() == 5,
        "between"@.len() == 7,
        "notBetween"@.len() == 10,
        "isBetween"@.len() == 9,
        "isNotBetween"@.len() == 12,
        "true"@.len() == 4,
        "false"@.len() == 5,
        "boolean"@.len() == 7,
        "is"@ != "in"@,
        "isNot"@ != "after"@,
        "isNot"@ != "notIn"@,
        "after"@ != "notIn"@,
        "contains"@ != "endsWith"@,
        "contains"@ != "lessThan"@,
        "contains"@ != "includes"@,
        "endsWith"@ != "lessThan"@,
        "endsWith"@ != "includes"@,
        "lessThan"@ != "includes"@,
        "doesNotContain"@ != "doesNotEndWith"@,
        "doesNotContain"@ != "doesNotInclude"@,
        "doesNotEndWith"@ != "doesNotInclude"@,
        "doesNotContainAnyOf"@ != "isLessThanOrEqualTo"@,
        "startsWith"@ != "isNotAnyOf"@,
        "startsWith"@ != "onOrBefore"@,
        "startsWith"@ != "notBetween"@,
        "isNotAnyOf"@ != "onOrBefore"@,
        "isNotAnyOf"@ != "notBetween"@,
        "onOrBefore"@ != "notBetween"@,
        "isAnyOf"@ != "between"@,
        "includeAnyOf"@ != "excludeAnyOf"@,
        "includeAnyOf"@ != "includeAllOf"@,
        "includeAnyOf"@ != "excludeAllOf"@,
        "excludeAnyOf"@ != "includeAllOf"@,
        "excludeAnyOf"@ != "excludeAllOf"@,
        "includeAllOf"@ != "excludeAllOf"@,
        "isNotBetween"@ != "includeAnyOf"@,
        "isNotBetween"@ != "excludeAnyOf"@,
        "isNotBetween"@ != "includeAllOf"@,
        "isNotBetween"@ != "excludeAllOf"@,
        "containsAnyOf"@ != "isNot"@,
        "onOrAfter"@ != "isBetween"@,
        "true"@ != "false"@,
{
    reveal_strlit("is");
    reveal_strlit("isNot");
    reveal_strlit("contains");
    reveal_strlit("doesNotContain");
    reveal_strlit("containsAnyOf");
    reveal_strlit("doesNotContainAnyOf");
    reveal_strlit("endsWith");
    reveal_strlit("doesNotEndWith");
    reveal_strlit("startsWith");
    reveal_strlit("doesNotStartWith");
    reveal_strlit("isAnyOf");
    reveal_strlit("isNotAnyOf");
    reveal_strlit("greaterThan");
    reveal_strlit("isLessThanOrEqualTo");
    reveal_strlit("lessThan");
    reveal_strlit("isGreaterThanOrEqualTo");
    reveal_strlit("includes");
    reveal_strlit("doesNotInclude");
    reveal_strlit("includeAnyOf");
    reveal_strlit("excludeAnyOf");
    reveal_strlit("includeAllOf");
    reveal_strlit("excludeAllOf");
    reveal_strlit("before");
    reveal_strlit("after");
    reveal_strlit("onOrBefore");
    reveal_strlit("onOrAfter");
    reveal_strlit("in");
    reveal_strlit("notIn");
    reveal_strlit("between");
    reveal_strlit("notBetween");
    reveal_strlit("isBetween");
    reveal_strlit("isNotBetween");
    reveal_strlit("true");
    reveal_strlit("false");
    reveal_strlit("boolean");
    assert("is"@[1] != "in"@[1]);
    assert("isNot"@[0] != "after"@[0]);
    assert("isNot"@[0] != "notIn"@[0]);
    assert("after"@[0] != "notIn"@[0]);
    assert("contains"@[0] != "endsWith"@[0]);
    assert("contains"@[0] != "lessThan"@[0]);
    assert("contains"@[0] != "includes"@[0]);
    assert("endsWith"@[0] != "lessThan"@[0]);
    assert("endsWith"@[0] != "includes"@[0]);
    assert("lessThan"@[0] != "includes"@[0]);
    assert("doesNotContain"@[7] != "doesNotEndWith"@[7]);
    assert("doesNotContain"@[7] != "doesNotInclude"@[7]);
    assert("doesNotEndWith"@[7] != "doesNotInclude"@[7]);
    assert("doesNotContainAnyOf"@[0] != "isLessThanOrEqualTo"@[0]);
    assert("startsWith"@[0] != "isNotAnyOf"@[0]);
    assert("startsWith"@[0] != "onOrBefore"@[0]);
    assert("startsWith"@[0] != "notBetween"@[0]);
    assert("isNotAnyOf"@[0] != "onOrBefore"@[0]);
    assert("isNotAnyOf"@[0] != "notBetween"@[0]);
    assert("onOrBefore"@[0] != "notBetween"@[0]);
    assert("isAnyOf"@[0] != "between"@[0]);
    assert("includeAnyOf"@[0] != "excludeAnyOf"@[0]);
    assert("includeAnyOf"@[8] != "includeAllOf"@[8]);
    assert("includeAnyOf"@[0] != "excludeAllOf"@[0]);
    assert("excludeAnyOf"@[0] != "includeAllOf"@[0]);
    assert("excludeAnyOf"@[8] != "excludeAllOf"@[8]);
    assert("includeAllOf"@[0] != "excludeAllOf"@[0]);
    assert("isNotBetween"@[2] != "includeAnyOf"@[2]);
    assert("isNotBetween"@[0] != "excludeAnyOf"@[0]);
    assert("isNotBetween"@[2] != "includeAllOf"@[2]);
    assert("isNotBetween"@[0] != "excludeAllOf"@[0]);
    assert("containsAnyOf"@.len() != "isNot"@.len());
    assert("onOrAfter"@[0] != "isBetween"@[0]);
    assert("true"@.len() != "false"@.len());
}

/// Negating a condition twice gives it back, except for a boolean field,
/// whose conditions are `true` and `false` alone.
pub proof fn law_negated_condition_involutive(condition: Seq<char>, field_type: Seq<char>)
    requires
        field_type == "boolean"@ ==> (condition == "true"@ || condition == "false"@),
    ensures
        negated_condition(negated_condition(condition, field_type), field_type) == condition,
{
    lemma_condition_names();
}

/// Whether a capture gives one of the comparison operators, where it gives
/// an operator at all.
pub open spec fn operator_known(c: Option<(Option<Seq<char>>, Option<Seq<char>>)>) -> bool {
    match c {
        Some((Some(op), Some(_))) => op == "<"@ || op == ">"@ || op == "<="@ || op == ">="@,
        _ => true,
    }
}

/// The terms on which a `NOT` before the term and a `-` before it mean the
/// same: all but a `content` field registered as boolean, and a number or
/// date whose operator the pattern would give as something other than a
/// comparison.
pub open spec fn negation_is_exact(
    raw_property: Seq<char>,
    value: Seq<char>,
    is_tag: bool,
    field_types: Map<Seq<char>, Seq<char>>,
    abbreviations: Map<Seq<char>, Seq<char>>,
) -> bool {
    let field = field_of(resolved_property(raw_property, abbreviations));
    let field_type = type_of(field, field_types);
    let text_like = field_type == "text"@ || field_type == "searchTerm"@ || field == "content"@;
    ||| is_tag
    ||| {
        &&& !(field == "content"@ && field_type == "boolean"@)
        &&& (!text_like && field_type == "number"@) ==> operator_known(
            regex_captures(NUMBER_PATTERN@, value, "op"@, "num"@),
        )
        &&& (!text_like && field_type == "date"@) ==> operator_known(
            regex_captures(DATE_PATTERN@, value, "op"@, "date"@),
        )
    }
}

proof fn lemma_type_names()
    ensures
        "text"@ != "boolean"@,
        "searchTerm"@ != "boolean"@,
        "number"@ != "boolean"@,
        "multiSelect"@ != "boolean"@,
        "date"@ != "boolean"@,
        "<"@ != ">"@,
        "<"@ != "<="@,
        "<"@ != ">="@,
        ">"@ != "<="@,
        ">"@ != ">="@,
        "<="@ != ">="@,
{
    reveal_strlit("text");
    reveal_strlit("searchTerm");
    reveal_strlit("number");
    reveal_strlit("multiSelect");
    reveal_strlit("date");
    reveal_strlit("boolean");
    reveal_strlit("<");
    reveal_strlit(">");
    reveal_strlit("<=");
    reveal_strlit(">=");
    assert("text"@.len() != "boolean"@.len());
    assert("searchTerm"@.len() != "boolean"@.len());
    assert("number"@.len() != "boolean"@.len());
    assert("multiSelect"@.len() != "boolean"@.len());
    assert("date"@.len() != "boolean"@.len());
    assert("<"@[0] != ">"@[0]);
    assert("<"@.len() != "<="@.len());
    assert("<"@.len() != ">="@.len());
    assert(">"@.len() != "<="@.len());
    assert(">"@.len() != ">="@.len());
    assert("<="@[0] != ">="@[0]);
}

/// `NOT` before a term means the same as `-` before it: the negated filter
/// flattens to the filter of the negated term.
pub proof fn law_not_means_negated_term(
    raw_property: Seq<char>,
    value: Seq<char>,
    is_tag: bool,
    field_types: Map<Seq<char>, Seq<char>>,
    abbreviations: Map<Seq<char>, Seq<char>>,
)
    requires
        negation_is_exact(raw_property, value, is_tag, field_types, abbreviations),
    ensures
        structured(
            NodeModel::Not(
                Box::new(
                    NodeModel::Filter(filter_model(raw_property, value, false, is_tag, field_types, abbreviations)),
                ),
            ),
        ) == structured(
            NodeModel::Filter(filter_model(raw_property, value, true, is_tag, field_types, abbreviations)),
        ),
{
    lemma_condition_names();
    lemma_type_names();
    let field = field_of(resolved_property(raw_property, abbreviations));
    let field_type = type_of(field, field_types);
    match regex_captures(NUMBER_PATTERN@, value, "op"@, "num"@) {
        Some((Some(op), Some(_))) => {
            assert(negated_condition(number_condition(op, false), "number"@) == number_condition(op, true)
                || !(op == "<"@ || op == ">"@ || op == "<="@ || op == ">="@));
        },
        _ => {},
    }
    match regex_captures(DATE_PATTERN@, value, "op"@, "date"@) {
        Some((Some(op), Some(_))) => {
            assert(negated_condition(date_condition(op, false), "date"@) == date_condition(op, true)
                || !(op == "<"@ || op == ">"@ || op == "<="@ || op == ">="@));
        },
        _ => {},
    }
}

/// Whether `q` is a group with operator `op`.
pub open spec fn is_group_with(q: QueryModel, op: Seq<char>) -> bool {
    match q {
        QueryModel::Group(o, _) => o == op,
        _ => false,
    }
}

/// The shape of a flattened query: every group joins at least two members
/// by `and` or `or`, none of which is a group with its own operator, and
/// every negated group is marked `not`.
pub open spec fn is_flat(q: QueryModel) -> bool
    decreases q,
{
    match q {
        QueryModel::Filter(_) => true,
        QueryModel::Group(op, fs) => {
            &&& fs.len() >= 2
            &&& (op == "and"@ || op == "or"@)
            &&& forall|i: int| 0 <= i < fs.len() ==> is_flat(#[trigger] fs[i]) && !is_group_with(fs[i], op)
        },
        QueryModel::NotGroup(op, inner) => op == "not"@ && is_flat(*inner),
    }
}

proof fn lemma_members_flat(op: Seq<char>, c: Option<QueryModel>)
    requires
        c matches Some(q) ==> is_flat(q),
    ensures
        forall|i: int|
            0 <= i < members(op, c).len() ==> is_flat(#[trigger] members(op, c)[i]) && !is_group_with(
                members(op, c)[i],
                op,
            ),
{
}

proof fn lemma_combined_flat(op: Seq<char>, a: Option<QueryModel>, b: Option<QueryModel>)
    requires
        op == "and"@ || op == "or"@,
        a matches Some(q) ==> is_flat(q),
        b matches Some(q) ==> is_flat(q),
    ensures
        combined(op, a, b) matches Some(q) ==> is_flat(q),
{
    lemma_members_flat(op, a);
    lemma_members_flat(op, b);
    let fs = members(op, a) + members(op, b);
    assert forall|i: int| 0 <= i < fs.len() implies is_flat(#[trigger] fs[i]) && !is_group_with(fs[i], op) by {
        if i < members(op, a).len() {
            assert(fs[i] == members(op, a)[i]);
        } else {
            assert(fs[i] == members(op, b)[i - members(op, a).len()]);
        }
    }
}

/// What `convert_to_structured` returns is flat: groups have two members or
/// more, joined by `and` or `or`, and no group holds a group with the same
/// operator. It always returns a query.
pub proof fn law_structured_is_flat(n: NodeModel)
    ensures
        structured(n) matches Some(q) && is_flat(q),
    decreases n,
{
    match n {
        NodeModel::Filter(_) => {},
        NodeModel::Not(e) => {
            match *e {
                NodeModel::Filter(_) => {},
                NodeModel::Not(inner) => {
                    law_structured_is_flat(*inner);
                },
                other => {
                    law_structured_is_flat(other);
                    reveal_strlit("not");
                },
            }
        },
        NodeModel::And(l, r) => {
            law_structured_is_flat(*l);
            law_structured_is_flat(*r);
            lemma_combined_flat("and"@, structured(*l), structured(*r));
            lemma_combined_some("and"@, structured(*l), structured(*r));
        },
        NodeModel::Or(l, r) => {
            law_structured_is_flat(*l);
            law_structured_is_flat(*r);
            lemma_combined_flat("or"@, structured(*l), structured(*r));
            lemma_combined_some("or"@, structured(*l), structured(*r));
        },
    }
}

proof fn lemma_combined_some(op: Seq<char>, a: Option<QueryModel>, b: Option<QueryModel>)
    requires
        a matches Some(q) && is_flat(q),
        b is Some,
    ensures
        combined(op, a, b) is Some,
{
    assert(members(op, a).len() >= 1);
}

/// The filters of a structured query, in order.
pub open spec fn query_filters(q: QueryModel) -> Seq<FilterModel>
    decreases q, 0nat,
{
    match q {
        QueryModel::Filter(f) => seq![f],
        QueryModel::Group(_, fs) => group_filters(fs, fs.len()),
        QueryModel::NotGroup(_, inner) => query_filters(*inner),
    }
}

/// The filters of the first `k` members of a group, in order.
pub open spec fn group_filters(fs: Seq<QueryModel>, k: nat) -> Seq<FilterModel>
    decreases fs, k,
{
    if k == 0 || k > fs.len() {
        Seq::empty()
    } else {
        group_filters(fs, (k - 1) as nat) + query_filters(fs[k - 1])
    }
}

/// The filters of a query tree in order, with a `NOT` directly on a filter
/// applied to it and two `NOT`s in a row cancelled.
pub open spec fn tree_filters(n: NodeModel) -> Seq<FilterModel>
    decreases n,
{
    match n {
        NodeModel::Filter(f) => seq![f],
        NodeModel::Not(e) => match *e {
            NodeModel::Filter(f) => seq![negated_filter(f)],
            NodeModel::Not(inner) => tree_filters(*inner),
            other => tree_filters(other),
        },
        NodeModel::And(l, r) => tree_filters(*l) + tree_filters(*r),
        NodeModel::Or(l, r) => tree_filters(*l) + tree_filters(*r),
    }
}

proof fn lemma_group_filters_append(a: Seq<QueryModel>, b: Seq<QueryModel>, k: nat)
    requires
        k <= b.len(),
    ensures
        group_filters(a + b, a.len() + k) == group_filters(a, a.len()) + group_filters(b, k),
    decreases k,
{
    if k == 0 {
        if a.len() > 0 {
            lemma_group_filters_prefix(a, b, a.len());
        }
    } else {
        lemma_group_filters_append(a, b, (k - 1) as nat);
        assert((a + b)[a.len() + k - 1] == b[k - 1]);
    }
}

proof fn lemma_group_filters_prefix(a: Seq<QueryModel>, b: Seq<QueryModel>, k: nat)
    requires
        k <= a.len(),
    ensures
        group_filters(a + b, k) == group_filters(a, k),
    decreases k,
{
    if k > 0 {
        lemma_group_filters_prefix(a, b, (k - 1) as nat);
        assert((a + b)[k - 1] == a[k - 1]);
    }
}

proof fn lemma_members_filters(op: Seq<char>, q: QueryModel)
    ensures
        group_filters(members(op, Some(q)), members(op, Some(q)).len()) == query_filters(q),
{
    match q {
        QueryModel::Group(o, fs) => {
            if o != op {
                assert(group_filters(seq![q], 0) == Seq::<FilterModel>::empty());
            }
        },
        _ => {
            assert(group_filters(seq![q], 0) == Seq::<FilterModel>::empty());
        },
    }
}

proof fn lemma_combined_filters(op: Seq<char>, a: QueryModel, b: QueryModel)
    requires
        is_flat(a),
        is_flat(b),
    ensures
        combined(op, Some(a), Some(b)) matches Some(q) && query_filters(q) == query_filters(a)
            + query_filters(b),
{
    let ma = members(op, Some(a));
    let mb = members(op, Some(b));
    lemma_members_filters(op, a);
    lemma_members_filters(op, b);
    lemma_group_filters_append(ma, mb, mb.len());
    assert(ma.len() >= 1);
    assert(mb.len() >= 1);
}

/// Flattening keeps every filter, in order: the filters of what
/// `convert_to_structured` returns are those of the tree, with a `NOT`
/// directly on a filter applied to that filter.
pub proof fn law_structured_keeps_filters(n: NodeModel)
    ensures
        structured(n) matches Some(q) && query_filters(q) == tree_filters(n),
    decreases n,
{
    match n {
        NodeModel::Filter(_) => {},
        NodeModel::Not(e) => {
            match *e {
                NodeModel::Filter(_) => {},
                NodeModel::Not(inner) => {
                    law_structured_keeps_filters(*inner);
                },
                other => {
                    law_structured_keeps_filters(other);
                },
            }
        },
        NodeModel::And(l, r) => {
            law_structured_keeps_filters(*l);
            law_structured_keeps_filters(*r);
            law_structured_is_flat(*l);
            law_structured_is_flat(*r);
            lemma_combined_filters("and"@, structured(*l)->0, structured(*r)->0);
        },
        NodeModel::Or(l, r) => {
            law_structured_keeps_filters(*l);
            law_structured_keeps_filters(*r);
            law_structured_is_flat(*l);
            law_structured_is_flat(*r);
            lemma_combined_filters("or"@, structured(*l)->0, structured(*r)->0);
        },
    }
}

/// A doubly negated node flattens as the node itself.
pub proof fn law_double_negation(n: NodeModel)
    ensures
        structured(NodeModel::Not(Box::new(NodeModel::Not(Box::new(n))))) == structured(n),
{
}

/// The filters of a node, left to right.
pub open spec fn leaves(n: NodeModel) -> Seq<FilterModel>
    decreases n,
{
    match n {
        NodeModel::Filter(f) => seq![f],
        NodeModel::Not(e) => leaves(*e),
        NodeModel::And(l, r) => leaves(*l) + leaves(*r),
        NodeModel::Or(l, r) => leaves(*l) + leaves(*r),
    }
}

/// Turning `AND`s into `OR`s leaves no `AND` and keeps the filters in order.
pub proof fn law_and_to_or(n: NodeModel)
    ensures
        !contains_and_node(and_to_or(n)),
        leaves(and_to_or(n)) == leaves(n),
    decreases n,
{
    match n {
        NodeModel::Filter(_) => {},
        NodeModel::Not(e) => {
            law_and_to_or(*e);
        },
        NodeModel::And(l, r) => {
            law_and_to_or(*l);
            law_and_to_or(*r);
        },
        NodeModel::Or(l, r) => {
            law_and_to_or(*l);
            law_and_to_or(*r);
        },
    }
}

/// Two `NOT`s in a row do not parse.
pub proof fn law_consecutive_not_fails(env: ParseEnv, p: int)
    requires
        is_kind(env, p, TokenType::NotOperator),
        is_kind(env, p + 1, TokenType::NotOperator),
    ensures
        p_unary(env, p) is None,
{
}

pub open spec fn no_metadata(ts: Seq<TokenModel>) -> bool {
    forall|i: int| 0 <= i < ts.len() ==> (#[trigger] ts[i]).kind != TokenType::Metadata
}

proof fn lemma_lex_no_metadata(s: Seq<char>, p: int)
    ensures
        no_metadata(lex(s, p)),
    decreases s.len() - p,
{
    if p >= 0 && skip_spaces(s, p) < s.len() {
        lemma_step_progress(s, p);
        let (t, e) = step(s, p);
        lemma_lex_no_metadata(s, e);
        assert(no_metadata(t));
        let all = t + lex(s, e);
        assert forall|i: int| 0 <= i < all.len() implies (#[trigger] all[i]).kind != TokenType::Metadata by {
            if i >= t.len() {
                assert(all[i] == lex(s, e)[i - t.len()]);
            }
        }
    }
}

proof fn lemma_without_metadata_keeps(ts: Seq<TokenModel>)
    requires
        no_metadata(ts),
    ensures
        without_metadata(ts) == ts,
    decreases ts.len(),
{
    if ts.len() > 0 {
        assert(no_metadata(ts.drop_last()));
        lemma_without_metadata_keeps(ts.drop_last());
        assert(ts.drop_last().push(ts.last()) == ts);
    }
}

/// The metadata token that ends a query's tokens only carries the default
/// operator: the parser sees exactly the other tokens, and `OR` as the
/// default operator exactly where the query says `match:OR`.
pub proof fn law_parser_sees_lexed_tokens(
    input: Seq<char>,
    field_types: Map<Seq<char>, Seq<char>>,
    abbreviations: Map<Seq<char>, Seq<char>>,
)
    ensures
        query_env(input, field_types, abbreviations).tokens == lex(lexed_input(input), 0),
        query_env(input, field_types, abbreviations).default_or == (default_operator_of(input) == "OR"@),
{
    let ts = lex(lexed_input(input), 0);
    let all = query_tokens(input);
    lemma_lex_no_metadata(lexed_input(input), 0);
    lemma_without_metadata_keeps(ts);
    assert(all.drop_last() == ts);
    assert(all.last() == metadata_token(default_operator_of(input)));
}

/// The property a filter token names (`content` where it names none).
pub open spec fn token_property(t: TokenModel) -> Seq<char> {
    match t.property {
        Some(p) => p,
        None => "content"@,
    }
}

/// A `NOT` token before a filter token parses to a node that flattens as
/// that filter token marked negative, the way a leading `-` marks it.
pub proof fn law_not_token_means_negative_filter(env: ParseEnv, p: int)
    requires
        is_kind(env, p, TokenType::NotOperator),
        is_kind(env, p + 1, TokenType::Filter),
        !env.tokens[p + 1].is_negative,
        negation_is_exact(
            token_property(env.tokens[p + 1]),
            env.tokens[p + 1].value,
            env.tokens[p + 1].is_tag,
            env.field_types,
            env.abbreviations,
        ),
    ensures
        p_unary(env, p) matches Some((n, e)) && e == p + 2 && structured(n) == structured(
            NodeModel::Filter(token_filter(env, TokenModel { is_negative: true, ..env.tokens[p + 1] })),
        ),
{
    let t = env.tokens[p + 1];
    law_not_means_negated_term(token_property(t), t.value, t.is_tag, env.field_types, env.abbreviations);
}

// ---------------------------------------------------------------------------
// `-p:v` and `NOT p:v` as whole queries.
// ---------------------------------------------------------------------------

proof fn lemma_swapped_structured(a: NodeModel, b: NodeModel, x1: NodeModel, x2: NodeModel)
    requires
        swapped(a, b, x1, x2),
        structured(x1) == structured(x2),
    ensures
        structured(a) == structured(b),
    decreases a,
{
    if !(a == b || (a == x1 && b == x2)) {
        match a {
            NodeModel::Or(al, _) => match b {
                NodeModel::Or(bl, _) => lemma_swapped_structured(*al, *bl, x1, x2),
                _ => {},
            },
            NodeModel::And(al, _) => match b {
                NodeModel::And(bl, _) => lemma_swapped_structured(*al, *bl, x1, x2),
                _ => {},
            },
            _ => {},
        }
    }
}

proof fn lemma_swapped_shape(a: NodeModel, b: NodeModel, x1: NodeModel, x2: NodeModel)
    requires
        swapped(a, b, x1, x2),
        contains_and_node(x1) == contains_and_node(x2),
        pure_content_and(x1) == pure_content_and(x2),
    ensures
        contains_and_node(a) == contains_and_node(b),
        pure_content_and(a) == pure_content_and(b),
        swapped(and_to_or(a), and_to_or(b), and_to_or(x1), and_to_or(x2)),
    decreases a,
{
    if !(a == b || (a == x1 && b == x2)) {
        match a {
            NodeModel::Or(al, ar) => match b {
                NodeModel::Or(bl, br) => {
                    lemma_swapped_shape(*al, *bl, x1, x2);
                    assert(and_to_or(a) == NodeModel::Or(Box::new(and_to_or(*al)), Box::new(and_to_or(*ar))));
                    assert(and_to_or(b) == NodeModel::Or(Box::new(and_to_or(*bl)), Box::new(and_to_or(*br))));
                },
                _ => {},
            },
            NodeModel::And(al, ar) => match b {
                NodeModel::And(bl, br) => {
                    lemma_swapped_shape(*al, *bl, x1, x2);
                    assert(and_to_or(a) == NodeModel::Or(Box::new(and_to_or(*al)), Box::new(and_to_or(*ar))));
                    assert(and_to_or(b) == NodeModel::Or(Box::new(and_to_or(*bl)), Box::new(and_to_or(*br))));
                },
                _ => {},
            },
            _ => {},
        }
    }
}

/// The query `-p:v`.
pub open spec fn dash_query(p: Seq<char>, v: Seq<char>) -> Seq<char> {
    seq!['-'] + p + seq![':'] + v
}

/// The query `NOT p:v`.
pub open spec fn not_query(p: Seq<char>, v: Seq<char>) -> Seq<char> {
    seq!['N', 'O', 'T', ' '] + p + seq![':'] + v
}

/// The value the lexer reads after `p:` from `v`, and where it stops in `v`.
pub open spec fn term_value(v: Seq<char>) -> (Seq<char>, int) {
    value_from(v, skip_spaces(v, 0), 0, false, Seq::empty())
}

/// A property that the lexer reads as one word, whether `-` or `NOT `
/// stands before it: word characters other than `(`, not starting with `-`,
/// and not one of the words `AND`, `OR` and `NOT`.
pub open spec fn plain_property(p: Seq<char>) -> bool {
    &&& p.len() > 0
    &&& p[0] != '-'
    &&& forall|i: int| 0 <= i < p.len() ==> word_char(#[trigger] p[i]) && p[i] != '('
    &&& uppercase(p) != "AND"@
    &&& uppercase(p) != "OR"@
    &&& uppercase(p) != "NOT"@
}

/// What std's `char::is_alphanumeric` and `str::to_uppercase` give on the
/// letters of `NOT`: `N`, `O` and `T` are alphanumeric, and `NOT` upper-cases
/// to itself.
pub open spec fn prefix_char_facts() -> bool {
    &&& char_is_alnum('N')
    &&& char_is_alnum('O')
    &&& char_is_alnum('T')
    &&& uppercase(seq!['N', 'O', 'T']) == seq!['N', 'O', 'T']
}

/// The letters of `NOT` are ASCII letters, so std's documented ASCII
/// behaviour gives [`prefix_char_facts`].
proof fn lemma_prefix_char_facts()
    ensures
        prefix_char_facts(),
{
    let w = seq!['N', 'O', 'T'];
    assert(is_ascii_char(w[0]) && is_ascii_char(w[1]) && is_ascii_char(w[2]));
    assert(is_ascii_text(w));
    assert(ascii_upper('N') == 'N' && ascii_upper('O') == 'O' && ascii_upper('T') == 'T');
    assert(w.map_values(|c: char| ascii_upper(c)) =~= w);
}

proof fn lemma_word_end_run(s: Seq<char>, i: int, j: int)
    requires
        0 <= i <= j <= s.len(),
        forall|k: int| i <= k < j ==> word_char(#[trigger] s[k]),
        j == s.len() || !word_char(s[j]),
    ensures
        word_end(s, i) == j,
    decreases j - i,
{
    if i < j {
        lemma_word_end_run(s, i + 1, j);
    }
}

proof fn lemma_dash_look_end_run(s: Seq<char>, i: int, j: int)
    requires
        0 <= i <= j <= s.len(),
        forall|k: int| i <= k < j ==> !dash_look_stop(#[trigger] s[k]),
        j == s.len() || dash_look_stop(s[j]),
    ensures
        dash_look_end(s, i) == j,
    decreases j - i,
{
    if i < j {
        lemma_dash_look_end_run(s, i + 1, j);
    }
}

/// The value read after `p:` in a query that is `v` from `start` on.
proof fn lemma_term_value_at(q: Seq<char>, v: Seq<char>, start: int)
    requires
        0 <= start,
        q.len() == start + v.len(),
        forall|k: int| 0 <= k < v.len() ==> #[trigger] v[k] == q[k + start],
    ensures
        value_from(q, skip_spaces(q, start), 0, false, Seq::empty()) == (
            term_value(v).0,
            term_value(v).1 + start,
        ),
        0 <= term_value(v).1 <= v.len(),
{
    assert(agree_from(v, q, 0, start));
    lemma_shift_skip_spaces(v, q, 0, start);
    lemma_first_non_space_bounds(v, 0, v.len() as int);
    lemma_shift_value_from(v, q, skip_spaces(v, 0), start, 0, false, Seq::empty());
    lemma_value_from(v, skip_spaces(v, 0), 0, false, Seq::empty());
}

/// `-p` does not upper-case to one of the words `AND`, `OR` and `NOT`.
pub open spec fn dash_word_upper(p: Seq<char>) -> bool {
    &&& uppercase(seq!['-'] + p) != "AND"@
    &&& uppercase(seq!['-'] + p) != "OR"@
    &&& uppercase(seq!['-'] + p) != "NOT"@
}

/// An ASCII `-p` upper-cases to a text that starts with `-`, which is no
/// operator.
proof fn lemma_dash_word_upper(p: Seq<char>)
    requires
        is_ascii_text(p),
    ensures
        dash_word_upper(p),
{
    let w = seq!['-'] + p;
    assert forall|i: int| 0 <= i < w.len() implies is_ascii_char(#[trigger] w[i]) by {
        if i > 0 {
            assert(w[i] == p[i - 1]);
        }
    }
    let u = uppercase(w);
    assert(u[0] == '-');
    reveal_strlit("AND");
    reveal_strlit("OR");
    reveal_strlit("NOT");
    assert(u[0] != "AND"@[0]);
    assert(u[0] != "OR"@[0]);
    assert(u[0] != "NOT"@[0]);
}

/// `-p:v` lexes to the negative filter token for `p` and the value read from
/// `v`, followed by what comes after that value.
proof fn lemma_lex_dash_query(p: Seq<char>, v: Seq<char>)
    requires
        prefix_char_facts(),
        plain_property(p),
        dash_word_upper(p),
    ensures
        lex(dash_query(p, v), 0) == seq![filter_token(p, term_value(v).0, true, false)] + lex(
            dash_query(p, v),
            term_value(v).1 + p.len() + 2,
        ),
{
    let q = dash_query(p, v);
    let n = p.len() as int;
    assert(q.len() == n + 2 + v.len());
    assert(q[0] == '-');
    assert(q[n + 1] == ':');
    assert forall|k: int| 1 <= k < n + 1 implies #[trigger] q[k] == p[k - 1] by {}
    assert forall|k: int| 0 <= k < v.len() implies #[trigger] v[k] == q[k + n + 2] by {}
    assert(skip_spaces(q, 0) == 0);
    // The dash starts a property.
    assert forall|k: int| 1 <= k < n + 1 implies !dash_look_stop(#[trigger] q[k]) by {
        assert(word_char(p[k - 1]) && p[k - 1] != '(');
    }
    lemma_dash_look_end_run(q, 1, n + 1);
    assert(skip_spaces(q, n + 1) == n + 1);
    assert(crate::lexer::dash_property(q, 0));
    // The word is `-p`.
    assert forall|k: int| 0 <= k < n + 1 implies word_char(#[trigger] q[k]) by {
        if k > 0 {
            assert(word_char(p[k - 1]));
        }
    }
    lemma_word_end_run(q, 0, n + 1);
    assert(q.subrange(0, n + 1) =~= seq!['-'] + p);
    assert((seq!['-'] + p).skip(1) =~= p);
    assert(word_char(p[0]));
    lemma_term_value_at(q, v, n + 2);
    lemma_first_non_space_bounds(q, n + 2, q.len() as int);
    assert(step(q, 0) == (
        seq![filter_token(p, term_value(v).0, true, false)],
        term_value(v).1 + n + 2,
    ));
    lemma_step_progress(q, 0);
}

/// `NOT p:v` lexes to `NOT`, the filter token for `p` and the value read
/// from `v`, and what comes after that value.
proof fn lemma_lex_not_query(p: Seq<char>, v: Seq<char>)
    requires
        prefix_char_facts(),
        plain_property(p),
    ensures
        lex(not_query(p, v), 0) == seq![
            plain_token(TokenType::NotOperator, "NOT"@),
            filter_token(p, term_value(v).0, false, false),
        ] + lex(not_query(p, v), term_value(v).1 + p.len() + 5),
{
    let q = not_query(p, v);
    let n = p.len() as int;
    reveal_strlit("AND");
    reveal_strlit("OR");
    reveal_strlit("NOT");
    assert(q.len() == n + 5 + v.len());
    assert(q[0] == 'N' && q[1] == 'O' && q[2] == 'T' && q[3] == ' ');
    assert(q[n + 4] == ':');
    assert forall|k: int| 4 <= k < n + 4 implies #[trigger] q[k] == p[k - 4] by {}
    assert forall|k: int| 0 <= k < v.len() implies #[trigger] v[k] == q[k + n + 5] by {}
    // The word `NOT`.
    assert(skip_spaces(q, 0) == 0);
    lemma_word_end_run(q, 0, 3);
    assert(q.subrange(0, 3) =~= seq!['N', 'O', 'T']);
    assert(word_char(p[0]));
    assert(q[4] == p[0]);
    assert(crate::text::first_non_space(q, 4, q.len() as int) == 4);
    assert(skip_spaces(q, 3) == 4);
    assert("NOT"@ =~= seq!['N', 'O', 'T']);
    assert("AND"@[0] != 'N');
    assert("OR"@.len() != 3);
    assert(uppercase(q.subrange(0, 3)) == "NOT"@);
    assert(step(q, 0) == (seq![plain_token(TokenType::NotOperator, "NOT"@)], 4int));
    lemma_step_progress(q, 0);
    // The word `p`.
    assert(skip_spaces(q, 4) == 4);
    assert forall|k: int| 4 <= k < n + 4 implies word_char(#[trigger] q[k]) by {
        assert(word_char(p[k - 4]));
    }
    lemma_word_end_run(q, 4, n + 4);
    assert(q.subrange(4, n + 4) =~= p);
    assert(skip_spaces(q, n + 4) == n + 4);
    lemma_term_value_at(q, v, n + 5);
    lemma_first_non_space_bounds(q, n + 5, q.len() as int);
    assert(step(q, 4) == (
        seq![filter_token(p, term_value(v).0, false, false)],
        term_value(v).1 + n + 5,
    ));
    lemma_step_progress(q, 4);
    assert(lex(q, 0) == seq![plain_token(TokenType::NotOperator, "NOT"@)] + lex(q, 4));
    assert(lex(q, 4) == seq![filter_token(p, term_value(v).0, false, false)] + lex(q, term_value(v).1 + n + 5));
    assert(seq![plain_token(TokenType::NotOperator, "NOT"@)] + (seq![filter_token(p, term_value(v).0, false, false)]
        + lex(q, term_value(v).1 + n + 5)) =~= seq![
        plain_token(TokenType::NotOperator, "NOT"@),
        filter_token(p, term_value(v).0, false, false),
    ] + lex(q, term_value(v).1 + n + 5));
}

proof fn lemma_and_loop2_forward(env: ParseEnv, l: NodeModel, p: int)
    ensures
        and_loop2(env, l, p) matches Some((_, e)) ==> p <= e,
    decreases env.tokens.len() - p, 0int,
{
    if 0 <= p < env.tokens.len() && crate::parser::is_operator(env, p, "AND"@) && !crate::parser::dangling(env, p + 1) {
        match p_unary(env, p + 1) {
            Some((r, p2)) => if p + 1 < p2 <= env.tokens.len() {
                lemma_and_loop1_forward(env, NodeModel::And(Box::new(l), Box::new(r)), p2);
            },
            None => {},
        }
    }
}

proof fn lemma_and_loop1_forward(env: ParseEnv, l: NodeModel, p: int)
    ensures
        and_loop1(env, l, p) matches Some((_, e)) ==> p <= e,
    decreases env.tokens.len() - p, 1int,
{
    if 0 <= p < env.tokens.len() && !is_kind(env, p, TokenType::RightParen) && !is_kind(
        env,
        p,
        TokenType::LogicalOperator,
    ) {
        match p_unary(env, p) {
            Some((r, p2)) => if p < p2 <= env.tokens.len() {
                let node = if env.default_or {
                    NodeModel::Or(Box::new(l), Box::new(r))
                } else {
                    NodeModel::And(Box::new(l), Box::new(r))
                };
                lemma_and_loop1_forward(env, node, p2);
            },
            None => {},
        }
    } else {
        lemma_and_loop2_forward(env, l, p);
    }
}

/// A parse whose first factor is `x1` in one token sequence and `x2` in the
/// other, one token further on, with the same tokens after it.
proof fn lemma_swapped_parse(env1: ParseEnv, env2: ParseEnv, x1: NodeModel, x2: NodeModel)
    requires
        env_agree(env1, env2, 1, 1),
        p_unary(env1, 0) == Some((x1, 1int)),
        p_unary(env2, 0) == Some((x2, 2int)),
    ensures
        swapped_result(p_or(env1, 0), p_or(env2, 0), 1, x1, x2),
{
    assert(p_and(env1, 0) == and_loop1(env1, x1, 1));
    assert(p_and(env2, 0) == and_loop1(env2, x2, 2));
    lemma_swap_and_loop1(env1, env2, 1, 1, x1, x2, x1, x2, 1);
    lemma_and_loop1_forward(env1, x1, 1);
    match and_loop1(env1, x1, 1) {
        Some((l1, p1)) => {
            let l2 = match and_loop1(env2, x2, 2) {
                Some((l, _)) => l,
                None => x2,
            };
            if p1 <= env1.tokens.len() {
                lemma_swap_or_loop(env1, env2, 1, 1, l1, l2, x1, x2, p1);
            }
        },
        None => {},
    }
}

/// The parser's view of two queries that start with a negative filter token
/// and with `NOT` and that token unmarked, and go on alike: `AND` by default
/// in both, and the same tokens after the first term.
proof fn lemma_envs_of(
    q1: Seq<char>,
    q2: Seq<char>,
    f1: TokenModel,
    f2: TokenModel,
    e1: int,
    d: int,
    field_types: Map<Seq<char>, Seq<char>>,
    abbreviations: Map<Seq<char>, Seq<char>>,
)
    requires
        lex(q1, 0) == seq![f1] + lex(q1, e1),
        lex(q2, 0) == seq![plain_token(TokenType::NotOperator, "NOT"@), f2] + lex(q2, e1 + d),
        agree_from(q1, q2, e1, d),
        regex_is_match(MATCH_OR_PATTERN@, q1) == Some(false),
        regex_is_match(MATCH_OR_PATTERN@, q2) == Some(false),
    ensures
        ({
            let env1 = query_env(q1, field_types, abbreviations);
            let env2 = query_env(q2, field_types, abbreviations);
            &&& env1.tokens.len() >= 1
            &&& env1.tokens[0] == f1
            &&& env2.tokens.len() >= 2
            &&& env2.tokens[0] == plain_token(TokenType::NotOperator, "NOT"@)
            &&& env2.tokens[1] == f2
            &&& env_agree(env1, env2, 1, 1)
        }),
{
    let rest = lex(q1, e1);
    lemma_shift_lex(q1, q2, e1, d);
    law_parser_sees_lexed_tokens(q1, field_types, abbreviations);
    law_parser_sees_lexed_tokens(q2, field_types, abbreviations);
    reveal_strlit("AND");
    reveal_strlit("OR");
    assert("AND"@ != "OR"@) by {
        assert("AND"@.len() != "OR"@.len());
    }
    let env1 = query_env(q1, field_types, abbreviations);
    let env2 = query_env(q2, field_types, abbreviations);
    assert(env1.tokens == seq![f1] + rest);
    assert(env2.tokens == seq![plain_token(TokenType::NotOperator, "NOT"@), f2] + rest);
    assert forall|k: int| 1 <= k < env1.tokens.len() implies #[trigger] env1.tokens[k] == env2.tokens[k + 1] by {
        assert(env1.tokens[k] == rest[k - 1]);
        assert(env2.tokens[k + 1] == rest[k - 1]);
    }
}

/// Two queries whose parsers see a negative filter token first, and `NOT`
/// before that token unmarked, and the same tokens after: both parse or
/// both fail to, and they flatten alike.
proof fn lemma_negated_first_term(
    q1: Seq<char>,
    q2: Seq<char>,
    t: TokenModel,
    field_types: Map<Seq<char>, Seq<char>>,
    abbreviations: Map<Seq<char>, Seq<char>>,
)
    requires
        t.kind == TokenType::Filter,
        !t.is_negative,
        ({
            let env1 = query_env(q1, field_types, abbreviations);
            let env2 = query_env(q2, field_types, abbreviations);
            &&& env1.tokens.len() >= 1
            &&& env1.tokens[0] == TokenModel { is_negative: true, ..t }
            &&& env2.tokens.len() >= 2
            &&& env2.tokens[0] == plain_token(TokenType::NotOperator, "NOT"@)
            &&& env2.tokens[1] == t
            &&& env_agree(env1, env2, 1, 1)
        }),
        negation_is_exact(token_property(t), t.value, t.is_tag, field_types, abbreviations),
        !pure_content_and(
            NodeModel::Filter(filter_model(token_property(t), t.value, true, t.is_tag, field_types, abbreviations)),
        ),
    ensures
        match query_tree(q1, field_types, abbreviations) {
            Some(a) => query_tree(q2, field_types, abbreviations) matches Some(b)
                && structured(a) == structured(b),
            None => query_tree(q2, field_types, abbreviations) is None,
        },
{
    let env1 = query_env(q1, field_types, abbreviations);
    let env2 = query_env(q2, field_types, abbreviations);
    let p = token_property(t);
    // The first factor: the negative filter, or `NOT` and the filter.
    let x1 = NodeModel::Filter(filter_model(p, t.value, true, t.is_tag, field_types, abbreviations));
    let y = NodeModel::Filter(filter_model(p, t.value, false, t.is_tag, field_types, abbreviations));
    let x2 = NodeModel::Not(Box::new(y));
    assert(token_filter(env1, env1.tokens[0]) == filter_model(p, t.value, true, t.is_tag, field_types, abbreviations));
    assert(p_unary(env1, 0) == Some((x1, 1int)));
    assert(p_atom(env2, 1) == Some((y, 2int)));
    assert(p_unary(env2, 0) == Some((x2, 2int)));
    // The rest is built alike on top of it, and flattens alike.
    lemma_swapped_parse(env1, env2, x1, x2);
    law_not_means_negated_term(p, t.value, t.is_tag, field_types, abbreviations);
    assert(structured(x1) == structured(x2));
    assert(and_to_or(x1) == x1);
    assert(and_to_or(y) == y);
    assert(and_to_or(x2) == x2);
    assert(!contains_and_node(y));
    assert(contains_and_node(x1) == contains_and_node(x2));
    assert(pure_content_and(x1) == pure_content_and(x2));
    match p_or(env1, 0) {
        Some((n1, _)) => {
            let n2 = match p_or(env2, 0) {
                Some((n, _)) => n,
                None => x2,
            };
            lemma_swapped_shape(n1, n2, x1, x2);
            lemma_swapped_structured(n1, n2, x1, x2);
            lemma_swapped_structured(and_to_or(n1), and_to_or(n2), x1, x2);
        },
        None => {},
    }
}

/// `-` before a property term and `NOT` before it give the same query:
/// `-p:v` and `NOT p:v` both parse or both fail to, and they flatten to the
/// same structured query.
///
/// Besides the term's shape (`p` a plain property word, which is what tells
/// the two apart from other syntax), this needs, for a `p` beyond ASCII,
/// that `-p` does not upper-case to an operator (std names that case only).
/// It leaves out queries that say `match:OR`, terms on which the two negations already
/// differ as filters (see [`negation_is_exact`]), and terms whose negated
/// filter is itself a positive content search (a field named
/// `content_tokens` of a non-text type), which would let the `-` query's
/// `AND`s turn into `OR`s while the `NOT` query's stay.
pub proof fn law_dash_and_not_agree(
    p: Seq<char>,
    v: Seq<char>,
    field_types: Map<Seq<char>, Seq<char>>,
    abbreviations: Map<Seq<char>, Seq<char>>,
)
    requires
        plain_property(p),
        is_ascii_text(p) || dash_word_upper(p),
        regex_is_match(MATCH_OR_PATTERN@, dash_query(p, v)) == Some(false),
        regex_is_match(MATCH_OR_PATTERN@, not_query(p, v)) == Some(false),
        negation_is_exact(p, term_value(v).0, false, field_types, abbreviations),
        !pure_content_and(
            NodeModel::Filter(filter_model(p, term_value(v).0, true, false, field_types, abbreviations)),
        ),
    ensures
        match query_tree(dash_query(p, v), field_types, abbreviations) {
            Some(a) => query_tree(not_query(p, v), field_types, abbreviations) matches Some(b)
                && structured(a) == structured(b),
            None => query_tree(not_query(p, v), field_types, abbreviations) is None,
        },
{
    lemma_prefix_char_facts();
    if is_ascii_text(p) {
        lemma_dash_word_upper(p);
    }
    let q1 = dash_query(p, v);
    let q2 = not_query(p, v);
    let n = p.len() as int;
    let stop = term_value(v).1;
    lemma_lex_dash_query(p, v);
    lemma_lex_not_query(p, v);
    lemma_first_non_space_bounds(v, 0, v.len() as int);
    lemma_value_from(v, skip_spaces(v, 0), 0, false, Seq::empty());
    assert forall|k: int| stop + n + 2 <= k < q1.len() implies #[trigger] q1[k] == q2[k + 3] by {
        assert(q1[k] == v[k - n - 2]);
        assert(q2[k + 3] == v[k - n - 2]);
    }
    let t = filter_token(p, term_value(v).0, false, false);
    lemma_envs_of(q1, q2, filter_token(p, term_value(v).0, true, false), t, stop + n + 2, 3, field_types, abbreviations);
    lemma_negated_first_term(q1, q2, t, field_types, abbreviations);
}

/// The query `-#w`.
pub open spec fn dash_tag_query(w: Seq<char>) -> Seq<char> {
    seq!['-', '#'] + w
}

/// The query `NOT #w`.
pub open spec fn not_tag_query(w: Seq<char>) -> Seq<char> {
    seq!['N', 'O', 'T', ' ', '#'] + w
}

/// The tag name that starts `w`.
pub open spec fn tag_name(w: Seq<char>) -> Seq<char> {
    w.subrange(0, tag_end(w, 0))
}

/// `-#w` lexes to the negative tag token, then what follows the tag name.
proof fn lemma_lex_dash_tag(w: Seq<char>)
    requires
        prefix_char_facts(),
    ensures
        lex(dash_tag_query(w), 0) == seq![filter_token("tags"@, tag_name(w), true, true)] + lex(
            dash_tag_query(w),
            tag_end(w, 0) + 2,
        ),
{
    let q = dash_tag_query(w);
    assert(q[0] == '-' && q[1] == '#');
    assert(skip_spaces(q, 0) == 0);
    assert forall|k: int| 0 <= k < w.len() implies #[trigger] w[k] == q[k + 2] by {}
    assert(agree_from(w, q, 0, 2));
    lemma_shift_tag_end(w, q, 0, 2);
    lemma_tag_end(w, 0);
    lemma_agree_subrange(w, q, 0, 2, 0, tag_end(w, 0));
    assert(step(q, 0) == (seq![filter_token("tags"@, tag_name(w), true, true)], tag_end(w, 0) + 2));
    lemma_step_progress(q, 0);
}

/// `NOT #w` lexes to `NOT` and the tag token, then what follows the tag
/// name.
proof fn lemma_lex_not_tag(w: Seq<char>)
    requires
        prefix_char_facts(),
    ensures
        lex(not_tag_query(w), 0) == seq![
            plain_token(TokenType::NotOperator, "NOT"@),
            filter_token("tags"@, tag_name(w), false, true),
        ] + lex(not_tag_query(w), tag_end(w, 0) + 5),
{
    let q = not_tag_query(w);
    reveal_strlit("AND");
    reveal_strlit("OR");
    reveal_strlit("NOT");
    assert(q[0] == 'N' && q[1] == 'O' && q[2] == 'T' && q[3] == ' ' && q[4] == '#');
    // The word `NOT`.
    assert(skip_spaces(q, 0) == 0);
    lemma_word_end_run(q, 0, 3);
    assert(q.subrange(0, 3) =~= seq!['N', 'O', 'T']);
    assert(crate::text::first_non_space(q, 4, q.len() as int) == 4);
    assert(skip_spaces(q, 3) == 4);
    assert("NOT"@ =~= seq!['N', 'O', 'T']);
    assert("AND"@[0] != 'N');
    assert("OR"@.len() != 3);
    assert(uppercase(q.subrange(0, 3)) == "NOT"@);
    assert(step(q, 0) == (seq![plain_token(TokenType::NotOperator, "NOT"@)], 4int));
    lemma_step_progress(q, 0);
    // The tag.
    assert forall|k: int| 0 <= k < w.len() implies #[trigger] w[k] == q[k + 5] by {}
    assert(agree_from(w, q, 0, 5));
    lemma_shift_tag_end(w, q, 0, 5);
    lemma_tag_end(w, 0);
    lemma_agree_subrange(w, q, 0, 5, 0, tag_end(w, 0));
    assert(skip_spaces(q, 4) == 4);
    assert(step(q, 4) == (seq![filter_token("tags"@, tag_name(w), false, true)], tag_end(w, 0) + 5));
    lemma_step_progress(q, 4);
    let n1 = plain_token(TokenType::NotOperator, "NOT"@);
    let n2 = filter_token("tags"@, tag_name(w), false, true);
    assert(lex(q, 0) == seq![n1] + lex(q, 4));
    assert(lex(q, 4) == seq![n2] + lex(q, tag_end(w, 0) + 5));
    assert(seq![n1] + (seq![n2] + lex(q, tag_end(w, 0) + 5)) =~= seq![n1, n2] + lex(q, tag_end(w, 0) + 5));
}

/// `-` before a tag and `NOT` before it give the same query: `-#w` and
/// `NOT #w` both parse or both fail to, and they flatten to the same
/// structured query, whatever follows the `#`.
///
/// This leaves out queries that say `match:OR`.
pub proof fn law_dash_and_not_agree_on_tags(
    w: Seq<char>,
    field_types: Map<Seq<char>, Seq<char>>,
    abbreviations: Map<Seq<char>, Seq<char>>,
)
    requires
        regex_is_match(MATCH_OR_PATTERN@, dash_tag_query(w)) == Some(false),
        regex_is_match(MATCH_OR_PATTERN@, not_tag_query(w)) == Some(false),
    ensures
        match query_tree(dash_tag_query(w), field_types, abbreviations) {
            Some(a) => query_tree(not_tag_query(w), field_types, abbreviations) matches Some(b)
                && structured(a) == structured(b),
            None => query_tree(not_tag_query(w), field_types, abbreviations) is None,
        },
{
    lemma_prefix_char_facts();
    let q1 = dash_tag_query(w);
    let q2 = not_tag_query(w);
    let e = tag_end(w, 0);
    lemma_lex_dash_tag(w);
    lemma_lex_not_tag(w);
    lemma_tag_end(w, 0);
    assert forall|k: int| e + 2 <= k < q1.len() implies #[trigger] q1[k] == q2[k + 3] by {
        assert(q1[k] == w[k - 2]);
        assert(q2[k + 3] == w[k - 2]);
    }
    let t = filter_token("tags"@, tag_name(w), false, true);
    lemma_envs_of(q1, q2, filter_token("tags"@, tag_name(w), true, true), t, e + 2, 3, field_types, abbreviations);
    reveal_strlit("tags");
    reveal_strlit("content_tokens");
    assert("tags"@ != "content_tokens"@) by {
        assert("tags"@.len() != "content_tokens"@.len());
    }
    lemma_negated_first_term(q1, q2, t, field_types, abbreviations);
}

/// `NOT ` followed by a non-whitespace character lexes to `NOT`, then what
/// comes after the space.
proof fn lemma_lex_not_prefix(q: Seq<char>)
    requires
        prefix_char_facts(),
        q.len() >= 5,
        q[0] == 'N' && q[1] == 'O' && q[2] == 'T' && q[3] == ' ',
        !crate::text::char_is_space(q[4]),
    ensures
        lex(q, 0) == seq![plain_token(TokenType::NotOperator, "NOT"@)] + lex(q, 4),
{
    reveal_strlit("AND");
    reveal_strlit("OR");
    reveal_strlit("NOT");
    assert(skip_spaces(q, 0) == 0);
    lemma_word_end_run(q, 0, 3);
    assert(q.subrange(0, 3) =~= seq!['N', 'O', 'T']);
    assert(crate::text::first_non_space(q, 4, q.len() as int) == 4);
    assert(skip_spaces(q, 3) == 4);
    assert("NOT"@ =~= seq!['N', 'O', 'T']);
    assert("AND"@[0] != 'N');
    assert("OR"@.len() != 3);
    assert(uppercase(q.subrange(0, 3)) == "NOT"@);
    assert(step(q, 0) == (seq![plain_token(TokenType::NotOperator, "NOT"@)], 4int));
    lemma_step_progress(q, 0);
}

/// The query `-"w`.
pub open spec fn dash_quote_query(w: Seq<char>) -> Seq<char> {
    seq!['-', '"'] + w
}

/// The query `NOT "w`.
pub open spec fn not_quote_query(w: Seq<char>) -> Seq<char> {
    seq!['N', 'O', 'T', ' ', '"'] + w
}

/// The content value a quoted phrase whose body starts `w` stands for: the
/// phrase with its quotes (an escaped `\"` read as `"`).
pub open spec fn phrase_value(w: Seq<char>) -> Seq<char> {
    quoted(quoted_body(w, 0).0)
}

/// `-` before a quoted phrase and `NOT` before it give the same query:
/// `-"w` and `NOT "w` both parse or both fail to, and they flatten to the
/// same structured query, whatever follows the quote.
///
/// This leaves out queries that say `match:OR`, a `content`
/// field on which the two negations differ as filters (see
/// [`negation_is_exact`]), and a negated phrase whose filter would count as
/// a positive content search (its condition lower-cased holds no `not`).
#[verifier::rlimit(40)]
pub proof fn law_dash_and_not_agree_on_phrases(
    w: Seq<char>,
    field_types: Map<Seq<char>, Seq<char>>,
    abbreviations: Map<Seq<char>, Seq<char>>,
)
    requires
        regex_is_match(MATCH_OR_PATTERN@, dash_quote_query(w)) == Some(false),
        regex_is_match(MATCH_OR_PATTERN@, not_quote_query(w)) == Some(false),
        negation_is_exact("content"@, phrase_value(w), false, field_types, abbreviations),
        !pure_content_and(
            NodeModel::Filter(filter_model("content"@, phrase_value(w), true, false, field_types, abbreviations)),
        ),
    ensures
        match query_tree(dash_quote_query(w), field_types, abbreviations) {
            Some(a) => query_tree(not_quote_query(w), field_types, abbreviations) matches Some(b)
                && structured(a) == structured(b),
            None => query_tree(not_quote_query(w), field_types, abbreviations) is None,
        },
{
    lemma_prefix_char_facts();
    let q1 = dash_quote_query(w);
    let q2 = not_quote_query(w);
    let e = quoted_body(w, 0).1;
    assert(q1[0] == '-' && q1[1] == '"');
    assert(q2[0] == 'N' && q2[1] == 'O' && q2[2] == 'T' && q2[3] == ' ' && q2[4] == '"');
    lemma_quoted_body(w, 0);
    // `-"w`.
    assert forall|k: int| 0 <= k < w.len() implies #[trigger] w[k] == q1[k + 2] by {}
    assert(agree_from(w, q1, 0, 2));
    lemma_shift_quoted_body(w, q1, 0, 2);
    assert(skip_spaces(q1, 0) == 0);
    let f1 = filter_token("content"@, phrase_value(w), true, false);
    assert(step(q1, 0) == (seq![f1], e + 2));
    lemma_step_progress(q1, 0);
    // `NOT "w`.
    lemma_lex_not_prefix(q2);
    assert forall|k: int| 0 <= k < w.len() implies #[trigger] w[k] == q2[k + 5] by {}
    assert(agree_from(w, q2, 0, 5));
    lemma_shift_quoted_body(w, q2, 0, 5);
    assert(skip_spaces(q2, 4) == 4);
    let t = filter_token("content"@, phrase_value(w), false, false);
    assert(step(q2, 4) == (seq![t], e + 5));
    lemma_step_progress(q2, 4);
    let not = plain_token(TokenType::NotOperator, "NOT"@);
    assert(lex(q2, 4) == seq![t] + lex(q2, e + 5));
    assert(lex(q2, 0) =~= seq![not, t] + lex(q2, e + 5));
    // Then the same.
    assert forall|k: int| e + 2 <= k < q1.len() implies #[trigger] q1[k] == q2[k + 3] by {
        assert(q1[k] == w[k - 2]);
        assert(q2[k + 3] == w[k - 2]);
    }
    lemma_envs_of(q1, q2, f1, t, e + 2, 3, field_types, abbreviations);
    lemma_negated_first_term(q1, q2, t, field_types, abbreviations);
}

/// The query `-w` followed by `r`.
pub open spec fn dash_word_query(w: Seq<char>, r: Seq<char>) -> Seq<char> {
    seq!['-'] + w + r
}

/// The query `NOT w` followed by `r`.
pub open spec fn not_word_query(w: Seq<char>, r: Seq<char>) -> Seq<char> {
    seq!['N', 'O', 'T', ' '] + w + r
}

/// A content word `w` that both queries read whole as a search word: word
/// characters other than `(`, starting with a letter, digit or `_`, not one
/// of `AND`, `OR` and `NOT`; what follows is the end, whitespace, `)`, `"`
/// or `#`, and no `:` comes after the whitespace (which would make `w` a
/// property).
pub open spec fn plain_word(w: Seq<char>, r: Seq<char>) -> bool {
    &&& w.len() > 0
    &&& crate::lexer::dash_word_start(w[0])
    &&& w[0] != '#'
    &&& w[0] != '-'
    &&& forall|i: int| 0 <= i < w.len() ==> word_char(#[trigger] w[i]) && w[i] != '('
    &&& uppercase(w) != "AND"@
    &&& uppercase(w) != "OR"@
    &&& uppercase(w) != "NOT"@
    &&& r.len() > 0 ==> (crate::text::char_is_space(r[0]) || r[0] == ')' || r[0] == '"' || r[0] == '#')
    &&& !(skip_spaces(r, 0) < r.len() && r[skip_spaces(r, 0)] == ':')
}

/// What follows the word in a query that is `r` from `start` on: not a
/// word character and not `(` (or the end), and no `:` after the whitespace.
proof fn lemma_after_word(q: Seq<char>, w: Seq<char>, r: Seq<char>, start: int)
    requires
        plain_word(w, r),
        0 <= start,
        q.len() == start + r.len(),
        forall|k: int| 0 <= k < r.len() ==> #[trigger] r[k] == q[k + start],
    ensures
        start < q.len() ==> !word_char(q[start]) && dash_look_stop(q[start]),
        !(skip_spaces(q, start) < q.len() && q[skip_spaces(q, start)] == ':'),
{
    assert(agree_from(r, q, 0, start));
    lemma_shift_skip_spaces(r, q, 0, start);
    lemma_first_non_space_bounds(r, 0, r.len() as int);
    if skip_spaces(r, 0) < r.len() {
        assert(r[skip_spaces(r, 0)] == q[skip_spaces(r, 0) + start]);
    }
    if r.len() > 0 {
        assert(r[0] == q[start]);
    }
}

/// `-w` followed by `r` lexes to the negated content word, then what `r`
/// gives.
proof fn lemma_lex_dash_word(w: Seq<char>, r: Seq<char>)
    requires
        plain_word(w, r),
    ensures
        lex(dash_word_query(w, r), 0) == seq![filter_token("content"@, w, true, false)] + lex(
            dash_word_query(w, r),
            w.len() as int + 1,
        ),
{
    let q = dash_word_query(w, r);
    let n = w.len() as int;
    assert(q[0] == '-');
    assert forall|k: int| 1 <= k < n + 1 implies #[trigger] q[k] == w[k - 1] by {}
    assert forall|k: int| 0 <= k < r.len() implies #[trigger] r[k] == q[k + n + 1] by {}
    lemma_after_word(q, w, r, n + 1);
    assert(word_char(w[0]));
    assert(skip_spaces(q, 0) == 0);
    assert forall|k: int| 1 <= k < n + 1 implies !dash_look_stop(#[trigger] q[k]) by {
        assert(word_char(w[k - 1]) && w[k - 1] != '(');
    }
    lemma_dash_look_end_run(q, 1, n + 1);
    assert(!crate::lexer::dash_property(q, 0));
    assert forall|k: int| 1 <= k < n + 1 implies word_char(#[trigger] q[k]) by {
        assert(word_char(w[k - 1]));
    }
    lemma_word_end_run(q, 1, n + 1);
    assert(q.subrange(1, n + 1) =~= w);
    assert(step(q, 0) == (seq![filter_token("content"@, w, true, false)], n + 1));
    lemma_step_progress(q, 0);
}

/// `NOT w` followed by `r` lexes to `NOT` and the content word, then what
/// `r` gives.
proof fn lemma_lex_not_word(w: Seq<char>, r: Seq<char>)
    requires
        prefix_char_facts(),
        plain_word(w, r),
    ensures
        lex(not_word_query(w, r), 0) == seq![
            plain_token(TokenType::NotOperator, "NOT"@),
            filter_token("content"@, w, false, false),
        ] + lex(not_word_query(w, r), w.len() as int + 4),
{
    let q = not_word_query(w, r);
    let n = w.len() as int;
    assert(q[0] == 'N' && q[1] == 'O' && q[2] == 'T' && q[3] == ' ');
    assert forall|k: int| 4 <= k < n + 4 implies #[trigger] q[k] == w[k - 4] by {}
    assert forall|k: int| 0 <= k < r.len() implies #[trigger] r[k] == q[k + n + 4] by {}
    lemma_after_word(q, w, r, n + 4);
    assert(word_char(w[0]));
    lemma_lex_not_prefix(q);
    assert(skip_spaces(q, 4) == 4);
    assert forall|k: int| 4 <= k < n + 4 implies word_char(#[trigger] q[k]) by {
        assert(word_char(w[k - 4]));
    }
    lemma_word_end_run(q, 4, n + 4);
    assert(q.subrange(4, n + 4) =~= w);
    let t = filter_token("content"@, w, false, false);
    assert(step(q, 4) == (seq![t], n + 4));
    lemma_step_progress(q, 4);
    let not = plain_token(TokenType::NotOperator, "NOT"@);
    assert(lex(q, 4) == seq![t] + lex(q, n + 4));
    assert(lex(q, 0) =~= seq![not, t] + lex(q, n + 4));
}

/// `-` before a content word and `NOT` before it give the same query: `-w`
/// and `NOT w`, followed by the same text, both parse or both fail to, and
/// they flatten to the same structured query.
///
/// This leaves out queries that say `match:OR`, words that
/// either query would read differently (see [`plain_word`]; `-foo!:x`, for
/// one, reads `-foo` as a word of its own), a `content` field on which the
/// two negations differ as filters (see [`negation_is_exact`]), and a
/// negated word whose filter would count as a positive content search.
pub proof fn law_dash_and_not_agree_on_words(
    w: Seq<char>,
    r: Seq<char>,
    field_types: Map<Seq<char>, Seq<char>>,
    abbreviations: Map<Seq<char>, Seq<char>>,
)
    requires
        plain_word(w, r),
        regex_is_match(MATCH_OR_PATTERN@, dash_word_query(w, r)) == Some(false),
        regex_is_match(MATCH_OR_PATTERN@, not_word_query(w, r)) == Some(false),
        negation_is_exact("content"@, w, false, field_types, abbreviations),
        !pure_content_and(NodeModel::Filter(filter_model("content"@, w, true, false, field_types, abbreviations))),
    ensures
        match query_tree(dash_word_query(w, r), field_types, abbreviations) {
            Some(a) => query_tree(not_word_query(w, r), field_types, abbreviations) matches Some(b)
                && structured(a) == structured(b),
            None => query_tree(not_word_query(w, r), field_types, abbreviations) is None,
        },
{
    lemma_prefix_char_facts();
    let q1 = dash_word_query(w, r);
    let q2 = not_word_query(w, r);
    let n = w.len() as int;
    lemma_lex_dash_word(w, r);
    lemma_lex_not_word(w, r);
    assert forall|k: int| n + 1 <= k < q1.len() implies #[trigger] q1[k] == q2[k + 3] by {
        assert(q1[k] == r[k - n - 1]);
        assert(q2[k + 3] == r[k - n - 1]);
    }
    let t = filter_token("content"@, w, false, false);
    lemma_envs_of(q1, q2, filter_token("content"@, w, true, false), t, n + 1, 3, field_types, abbreviations);
    lemma_negated_first_term(q1, q2, t, field_types, abbreviations);
}

// ---------------------------------------------------------------------------
// Reading the input.
// ---------------------------------------------------------------------------

proof fn lemma_step_one_token(s: Seq<char>, p: int)
    ensures
        step(s, p).0.len() <= 1,
{
}

/// The tokens read from `p` on are at most as many as the characters left.
pub proof fn lemma_lex_count(s: Seq<char>, p: int)
    requires
        0 <= p <= s.len(),
    ensures
        lex(s, p).len() <= s.len() - p,
    decreases s.len() - p,
{
    if skip_spaces(s, p) < s.len() {
        lemma_step_progress(s, p);
        lemma_step_one_token(s, p);
        lemma_lex_count(s, step(s, p).1);
    }
}

/// A query gives at most one token per character it is read from, plus
/// the closing metadata token. (It is read from the query with `match:OR`
/// replaced by a space, where it says that.)
pub proof fn law_token_count(input: Seq<char>)
    ensures
        query_tokens(input).len() <= lexed_input(input).len() + 1,
{
    lemma_lex_count(lexed_input(input), 0);
}

/// A filter value keeps every character read for it: what is read from `i`
/// up to where reading stops, after what was read before, with the outer
/// whitespace trimmed.
pub proof fn law_value_keeps_what_it_reads(
    s: Seq<char>,
    i: int,
    depth: nat,
    in_quotes: bool,
    acc: Seq<char>,
)
    requires
        0 <= i <= s.len(),
    ensures
        value_from(s, i, depth, in_quotes, acc) == (
            trimmed(acc + s.subrange(i, value_from(s, i, depth, in_quotes, acc).1)),
            value_from(s, i, depth, in_quotes, acc).1,
        ),
    decreases s.len() - i,
{
    if i < s.len() {
        let c = s[i];
        let stops = (!in_quotes && c == ')' && depth == 0) || (!in_quotes && depth == 0
            && crate::text::char_is_space(c) && crate::lexer::value_stops_at(s, i)) || (!in_quotes
            && depth == 0 && (c == ':' || c == '#') && !crate::text::ends_with_char(acc, ':'));
        if (!in_quotes && c == ')' && depth == 0) || (c != '"' && !(!in_quotes && c == '(') && !(!in_quotes
            && c == ')') && stops) {
            assert(acc + s.subrange(i, i) =~= acc);
        } else {
            let (d2, q2) = if c == '"' {
                (depth, !in_quotes)
            } else if !in_quotes && c == '(' {
                (depth + 1, in_quotes)
            } else if !in_quotes && c == ')' {
                ((depth - 1) as nat, in_quotes)
            } else {
                (depth, in_quotes)
            };
            assert(value_from(s, i, depth, in_quotes, acc) == value_from(s, i + 1, d2, q2, acc.push(c)));
            law_value_keeps_what_it_reads(s, i + 1, d2, q2, acc.push(c));
            lemma_value_from(s, i + 1, d2, q2, acc.push(c));
            let e = value_from(s, i + 1, d2, q2, acc.push(c)).1;
            assert(acc.push(c) + s.subrange(i + 1, e) =~= acc + s.subrange(i, e));
        }
    } else {
        assert(acc + s.subrange(i, i) =~= acc);
    }
}

// ---------------------------------------------------------------------------
// The schema.
// ---------------------------------------------------------------------------

/// A field registered with a type is filtered by that type: once `name` is
/// registered as `t` (as `with_field(name, t)` does), a term on `name` that
/// is no tag, no abbreviation and no `cp_` custom property has type `t`.
pub proof fn law_registered_field_type(
    name: Seq<char>,
    t: Seq<char>,
    value: Seq<char>,
    negative: bool,
    field_types: Map<Seq<char>, Seq<char>>,
    abbreviations: Map<Seq<char>, Seq<char>>,
)
    requires
        !abbreviations.contains_key(lowercase(name)),
        !is_custom_name(name),
    ensures
        filter_model(name, value, negative, false, field_types.insert(name, t), abbreviations).field_type == t,
        !filter_model(name, value, negative, false, field_types.insert(name, t), abbreviations).is_custom_property,
{
}

/// An abbreviation stands for its field: once `short` is registered for
/// `full` (as `with_abbreviation(short, full)` does), a term whose property
/// lower-cases to `short` makes the same filter as the term on `full`, where
/// `full` is not an abbreviation itself (abbreviations resolve once).
pub proof fn law_abbreviation_stands_for_field(
    raw: Seq<char>,
    full: Seq<char>,
    value: Seq<char>,
    negative: bool,
    is_tag: bool,
    field_types: Map<Seq<char>, Seq<char>>,
    abbreviations: Map<Seq<char>, Seq<char>>,
)
    requires
        !abbreviations.insert(lowercase(raw), full).contains_key(lowercase(full)),
    ensures
        filter_model(raw, value, negative, is_tag, field_types, abbreviations.insert(lowercase(raw), full))
            == filter_model(full, value, negative, is_tag, field_types, abbreviations.insert(lowercase(raw), full)),
{
}

/// A `cp_` prefix marks a custom property: the term `cp_x:v` (no tag, and
/// `cp_x` no abbreviation) is a custom-property filter, typed as field `x`
/// is.
pub proof fn law_custom_property(
    x: Seq<char>,
    value: Seq<char>,
    negative: bool,
    field_types: Map<Seq<char>, Seq<char>>,
    abbreviations: Map<Seq<char>, Seq<char>>,
)
    requires
        !abbreviations.contains_key(lowercase(seq!['c', 'p', '_'] + x)),
    ensures
        filter_model(seq!['c', 'p', '_'] + x, value, negative, false, field_types, abbreviations).is_custom_property,
        filter_model(seq!['c', 'p', '_'] + x, value, negative, false, field_types, abbreviations).field_type
            == type_of(x, field_types),
{
    let p = seq!['c', 'p', '_'] + x;
    reveal_strlit("cp_");
    assert(p.subrange(0, 3) =~= "cp_"@);
    assert(is_custom_name(p));
    assert(p.skip(3) =~= x);
}

// ---------------------------------------------------------------------------
// Full-text columns.
// ---------------------------------------------------------------------------

/// A term on `name` that the schema leaves as text (unregistered, or
/// registered as `text`) and that no abbreviation renames.
pub open spec fn plain_text_term(
    name: Seq<char>,
    field_types: Map<Seq<char>, Seq<char>>,
    abbreviations: Map<Seq<char>, Seq<char>>,
) -> bool {
    &&& !abbreviations.contains_key(lowercase(name))
    &&& (!field_types.contains_key(name) || field_types[name] == "text"@)
}

proof fn lemma_text_column(
    name: Seq<char>,
    column: Seq<char>,
    value: Seq<char>,
    negative: bool,
    field_types: Map<Seq<char>, Seq<char>>,
    abbreviations: Map<Seq<char>, Seq<char>>,
)
    requires
        plain_text_term(name, field_types, abbreviations),
        !is_custom_name(name),
        crate::filter::fts_field(name) == column,
        crate::text::is_suffix("_tokens"@, column),
    ensures
        filter_model(name, value, negative, false, field_types, abbreviations).field == column,
{
    reveal_strlit("text");
}

/// A text term is matched in its full-text column: `title` in
/// `title_tokens`, `description` and its short form `desc` both in
/// `desc_tokens`, `url` in `url_tokens`, `text` in `text_tokens`, `note` in
/// `note_tokens`, and `content` (whatever its type) in `content_tokens`,
/// whatever the value and whether negated.
pub proof fn law_full_text_columns(
    value: Seq<char>,
    negative: bool,
    field_types: Map<Seq<char>, Seq<char>>,
    abbreviations: Map<Seq<char>, Seq<char>>,
)
    ensures
        plain_text_term("title"@, field_types, abbreviations) ==> filter_model("title"@, value, negative, false, field_types, abbreviations).field == "title_tokens"@,
        plain_text_term("description"@, field_types, abbreviations) ==> filter_model("description"@, value, negative, false, field_types, abbreviations).field == "desc_tokens"@,
        plain_text_term("desc"@, field_types, abbreviations) ==> filter_model("desc"@, value, negative, false, field_types, abbreviations).field == "desc_tokens"@,
        plain_text_term("url"@, field_types, abbreviations) ==> filter_model("url"@, value, negative, false, field_types, abbreviations).field == "url_tokens"@,
        plain_text_term("text"@, field_types, abbreviations) ==> filter_model("text"@, value, negative, false, field_types, abbreviations).field == "text_tokens"@,
        plain_text_term("note"@, field_types, abbreviations) ==> filter_model("note"@, value, negative, false, field_types, abbreviations).field == "note_tokens"@,
        !abbreviations.contains_key(lowercase("content"@)) ==> filter_model("content"@, value, negative, false, field_types, abbreviations).field == "content_tokens"@,
{
    reveal_strlit("cp_");
    reveal_strlit("_tokens");
    reveal_strlit("title");
    reveal_strlit("title_tokens");
    reveal_strlit("description");
    reveal_strlit("desc");
    reveal_strlit("desc_tokens");
    reveal_strlit("url");
    reveal_strlit("url_tokens");
    reveal_strlit("text");
    reveal_strlit("text_tokens");
    reveal_strlit("note");
    reveal_strlit("note_tokens");
    reveal_strlit("content");
    reveal_strlit("content_tokens");
    let names = seq!["title"@, "description"@, "desc"@, "url"@, "text"@, "note"@, "content"@];
    let columns = seq![
        "title_tokens"@,
        "desc_tokens"@,
        "desc_tokens"@,
        "url_tokens"@,
        "text_tokens"@,
        "note_tokens"@,
        "content_tokens"@,
    ];
    // The names differ from each other, by length or first letter.
    assert("desc"@[0] != "text"@[0] && "desc"@[0] != "note"@[0] && "text"@[0] != "note"@[0]);
    // None starts with `cp_`.
    assert forall|i: int| 0 <= i < 7 implies !is_custom_name(#[trigger] names[i]) by {
        assert(names[i][0] != 'c' || names[i][1] != 'p');
        if names[i].len() >= 3 {
            assert(names[i].subrange(0, 3)[0] == names[i][0]);
            assert(names[i].subrange(0, 3)[1] == names[i][1]);
        }
    }
    assert forall|i: int| 0 <= i < 7 implies crate::text::is_suffix("_tokens"@, #[trigger] columns[i]) by {
        assert(columns[i].subrange(columns[i].len() - 7, columns[i].len() as int) =~= "_tokens"@);
    }
    assert(crate::filter::fts_field(names[0]) == columns[0]);
    assert(crate::filter::fts_field(names[1]) == columns[1]);
    assert(crate::filter::fts_field(names[2]) == columns[2]);
    assert(crate::filter::fts_field(names[3]) == columns[3]);
    assert(crate::filter::fts_field(names[4]) == columns[4]);
    assert(crate::filter::fts_field(names[5]) == columns[5]);
    assert(crate::filter::fts_field(names[6]) == columns[6]);
    if plain_text_term("title"@, field_types, abbreviations) {
        lemma_text_column(names[0], columns[0], value, negative, field_types, abbreviations);
    }
    if plain_text_term("description"@, field_types, abbreviations) {
        lemma_text_column(names[1], columns[1], value, negative, field_types, abbreviations);
    }
    if plain_text_term("desc"@, field_types, abbreviations) {
        lemma_text_column(names[2], columns[2], value, negative, field_types, abbreviations);
    }
    if plain_text_term("url"@, field_types, abbreviations) {
        lemma_text_column(names[3], columns[3], value, negative, field_types, abbreviations);
    }
    if plain_text_term("text"@, field_types, abbreviations) {
        lemma_text_column(names[4], columns[4], value, negative, field_types, abbreviations);
    }
    if plain_text_term("note"@, field_types, abbreviations) {
        lemma_text_column(names[5], columns[5], value, negative, field_types, abbreviations);
    }
    if !abbreviations.contains_key(lowercase("content"@)) {
        assert(filter_model("content"@, value, negative, false, field_types, abbreviations).field == "content_tokens"@);
    }
}

// ---------------------------------------------------------------------------
// Note text.
// ---------------------------------------------------------------------------

/// The text a note node holds itself.
pub open spec fn own_text(n: NoteNode) -> Seq<char> {
    match n.text {
        Some(t) => t@,
        None => Seq::empty(),
    }
}

/// Blocks are set apart: the text of a node with children is its own text,
/// then its children's text, then one space where the node is a paragraph,
/// a heading or a list item, and nothing more for any other node.
pub proof fn law_blocks_end_with_space(n: NoteNode)
    requires
        n.content is Some,
    ensures
        ({
            let children = n.content->0;
            let inner = own_text(n) + children_text(children@, children@.len() as nat);
            let block = n.node_type matches Some(t) && (t@ == "paragraph"@ || t@ == "heading"@ || t@
                == "list_item"@);
            &&& block ==> note_text(n) == inner + seq![' ']
            &&& !block ==> note_text(n) == inner
        }),
{
}

// ---------------------------------------------------------------------------
// Tag names.
// ---------------------------------------------------------------------------

proof fn lemma_tag_end_run(s: Seq<char>, i: int, j: int)
    requires
        0 <= i <= j <= s.len(),
        forall|k: int| i <= k < j ==> crate::lexer::tag_char(#[trigger] s[k]),
        j == s.len() || !crate::lexer::tag_char(s[j]),
    ensures
        tag_end(s, i) == j,
    decreases j - i,
{
    if i < j {
        lemma_tag_end_run(s, i + 1, j);
    }
}

/// A tag is read whole: `#` followed by a run of letters, digits, `_`, `-`,
/// `/` and `*` gives one tag filter token with that whole run as its value
/// (so `#machine-learning` is the one tag `machine-learning`), and reading
/// goes on after the run.
pub proof fn law_tag_reads_whole_name(w: Seq<char>, r: Seq<char>)
    requires
        forall|i: int|
            0 <= i < w.len() ==> char_is_alnum(#[trigger] w[i]) || w[i] == '_' || w[i] == '-' || w[i]
                == '/' || w[i] == '*',
        r.len() > 0 ==> !(char_is_alnum(r[0]) || r[0] == '_' || r[0] == '-' || r[0] == '/' || r[0]
            == '*'),
    ensures
        lex(seq!['#'] + w + r, 0) == seq![filter_token("tags"@, w, false, true)] + lex(
            seq!['#'] + w + r,
            w.len() as int + 1,
        ),
{
    let q = seq!['#'] + w + r;
    let n = w.len() as int;
    assert(q[0] == '#');
    assert forall|k: int| 1 <= k < n + 1 implies crate::lexer::tag_char(#[trigger] q[k]) by {
        assert(q[k] == w[k - 1]);
    }
    if r.len() > 0 {
        assert(q[n + 1] == r[0]);
    }
    lemma_tag_end_run(q, 1, n + 1);
    assert(q.subrange(1, n + 1) =~= w);
    assert(skip_spaces(q, 0) == 0);
    assert(step(q, 0) == (seq![filter_token("tags"@, w, false, true)], n + 1));
    lemma_step_progress(q, 0);
}

// ---------------------------------------------------------------------------
// Where a filter value ends.
// ---------------------------------------------------------------------------

/// A character a bare filter value may hold without ending or changing its
/// reading: no whitespace, quote, parenthesis, `:` or `#`.
pub open spec fn bare_value_char(c: char) -> bool {
    !crate::text::char_is_space(c) && c != '"' && c != '(' && c != ')' && c != ':' && c != '#'
}

proof fn lemma_value_run(s: Seq<char>, i: int, j: int, acc: Seq<char>)
    requires
        0 <= i <= j <= s.len(),
        forall|k: int| i <= k < j ==> bare_value_char(#[trigger] s[k]),
    ensures
        value_from(s, i, 0, false, acc) == value_from(s, j, 0, false, acc + s.subrange(i, j)),
    decreases j - i,
{
    if i < j {
        assert(bare_value_char(s[i]));
        lemma_value_run(s, i + 1, j, acc.push(s[i]));
        assert(acc.push(s[i]) + s.subrange(i + 1, j) =~= acc + s.subrange(i, j));
    } else {
        assert(acc + s.subrange(i, j) =~= acc);
    }
}

proof fn lemma_trimmed_bare(v: Seq<char>)
    requires
        v.len() > 0,
        !crate::text::char_is_space(v[0]),
        !crate::text::char_is_space(v.last()),
    ensures
        trimmed(v) == v,
{
}

/// A filter value ends before a negated tag: in `p:v -#t`, the value is `v`
/// whole (when `v` is a bare value), and `-#t` is the tag `t` excluded, just
/// as `#t` after the value would be the tag `t` included.
pub proof fn law_value_ends_before_negated_tag(p: Seq<char>, v: Seq<char>, t: Seq<char>)
    requires
        plain_property(p),
        v.len() > 0,
        forall|i: int| 0 <= i < v.len() ==> bare_value_char(#[trigger] v[i]),
        forall|i: int|
            0 <= i < t.len() ==> char_is_alnum(#[trigger] t[i]) || t[i] == '_' || t[i] == '-' || t[i]
                == '/' || t[i] == '*',
    ensures
        lex(p + seq![':'] + v + seq![' ', '-', '#'] + t, 0) == seq![
            filter_token(p, v, false, false),
            filter_token("tags"@, t, true, true),
        ],
{
    let q = p + seq![':'] + v + seq![' ', '-', '#'] + t;
    let n = p.len() as int;
    let j = n + 1 + v.len();
    assert(q.len() == j + 3 + t.len());
    assert forall|k: int| 0 <= k < n implies #[trigger] q[k] == p[k] by {}
    assert forall|k: int| n + 1 <= k < j implies #[trigger] q[k] == v[k - n - 1] by {}
    assert forall|k: int| j + 3 <= k < q.len() implies #[trigger] q[k] == t[k - j - 3] by {}
    assert(q[n] == ':');
    assert(q[j] == ' ' && q[j + 1] == '-' && q[j + 2] == '#');
    // The property word.
    assert(word_char(p[0]));
    assert(skip_spaces(q, 0) == 0);
    assert forall|k: int| 0 <= k < n implies word_char(#[trigger] q[k]) by {
        assert(word_char(p[k]));
    }
    lemma_word_end_run(q, 0, n);
    assert(q.subrange(0, n) =~= p);
    assert(skip_spaces(q, n) == n);
    // The value.
    assert(bare_value_char(v[0]));
    assert(skip_spaces(q, n + 1) == n + 1);
    assert forall|k: int| n + 1 <= k < j implies bare_value_char(#[trigger] q[k]) by {
        assert(bare_value_char(v[k - n - 1]));
    }
    lemma_value_run(q, n + 1, j, Seq::empty());
    assert(Seq::<char>::empty() + q.subrange(n + 1, j) =~= v);
    assert(crate::text::first_non_space(q, j + 1, q.len() as int) == j + 1);
    assert(skip_spaces(q, j) == j + 1);
    assert(crate::lexer::value_stops_at(q, j));
    assert(bare_value_char(v[v.len() - 1]));
    lemma_trimmed_bare(v);
    assert(value_from(q, j, 0, false, v) == (v, j));
    let f = filter_token(p, v, false, false);
    assert(step(q, 0) == (seq![f], j));
    lemma_step_progress(q, 0);
    // The negated tag.
    assert forall|k: int| j + 3 <= k < q.len() implies crate::lexer::tag_char(#[trigger] q[k]) by {
        assert(q[k] == t[k - j - 3]);
    }
    lemma_tag_end_run(q, j + 3, q.len() as int);
    assert(q.subrange(j + 3, q.len() as int) =~= t);
    let g = filter_token("tags"@, t, true, true);
    assert(step(q, j) == (seq![g], q.len() as int));
    lemma_step_progress(q, j);
    assert(lex(q, q.len() as int) == Seq::<TokenModel>::empty());
    assert(lex(q, j) =~= seq![g]);
    assert(lex(q, 0) =~= seq![f, g]);
}

/// A filter value ends before a tag: in `p:v #t`, the value is `v` whole
/// (when `v` is a bare value), and `#t` is the tag `t` included.
pub proof fn law_value_ends_before_tag(p: Seq<char>, v: Seq<char>, t: Seq<char>)
    requires
        plain_property(p),
        v.len() > 0,
        forall|i: int| 0 <= i < v.len() ==> bare_value_char(#[trigger] v[i]),
        forall|i: int|
            0 <= i < t.len() ==> char_is_alnum(#[trigger] t[i]) || t[i] == '_' || t[i] == '-' || t[i]
                == '/' || t[i] == '*',
    ensures
        lex(p + seq![':'] + v + seq![' ', '#'] + t, 0) == seq![
            filter_token(p, v, false, false),
            filter_token("tags"@, t, false, true),
        ],
{
    let q = p + seq![':'] + v + seq![' ', '#'] + t;
    let n = p.len() as int;
    let j = n + 1 + v.len();
    assert(q.len() == j + 2 + t.len());
    assert forall|k: int| 0 <= k < n implies #[trigger] q[k] == p[k] by {}
    assert forall|k: int| n + 1 <= k < j implies #[trigger] q[k] == v[k - n - 1] by {}
    assert forall|k: int| j + 2 <= k < q.len() implies #[trigger] q[k] == t[k - j - 2] by {}
    assert(q[n] == ':');
    assert(q[j] == ' ' && q[j + 1] == '#');
    // The property word.
    assert(word_char(p[0]));
    assert(skip_spaces(q, 0) == 0);
    assert forall|k: int| 0 <= k < n implies word_char(#[trigger] q[k]) by {
        assert(word_char(p[k]));
    }
    lemma_word_end_run(q, 0, n);
    assert(q.subrange(0, n) =~= p);
    assert(skip_spaces(q, n) == n);
    // The value.
    assert(bare_value_char(v[0]));
    assert(skip_spaces(q, n + 1) == n + 1);
    assert forall|k: int| n + 1 <= k < j implies bare_value_char(#[trigger] q[k]) by {
        assert(bare_value_char(v[k - n - 1]));
    }
    lemma_value_run(q, n + 1, j, Seq::empty());
    assert(Seq::<char>::empty() + q.subrange(n + 1, j) =~= v);
    assert(crate::text::first_non_space(q, j + 1, q.len() as int) == j + 1);
    assert(skip_spaces(q, j) == j + 1);
    assert(crate::lexer::value_stops_at(q, j));
    assert(bare_value_char(v[v.len() - 1]));
    lemma_trimmed_bare(v);
    assert(value_from(q, j, 0, false, v) == (v, j));
    let f = filter_token(p, v, false, false);
    assert(step(q, 0) == (seq![f], j));
    lemma_step_progress(q, 0);
    // The tag.
    assert forall|k: int| j + 2 <= k < q.len() implies crate::lexer::tag_char(#[trigger] q[k]) by {
        assert(q[k] == t[k - j - 2]);
    }
    lemma_tag_end_run(q, j + 2, q.len() as int);
    assert(q.subrange(j + 2, q.len() as int) =~= t);
    let g = filter_token("tags"@, t, false, true);
    assert(step(q, j) == (seq![g], q.len() as int));
    lemma_step_progress(q, j);
    assert(lex(q, q.len() as int) == Seq::<TokenModel>::empty());
    assert(lex(q, j) =~= seq![g]);
    assert(lex(q, 0) =~= seq![f, g]);
}

// ---------------------------------------------------------------------------
// The filter rules by field type.
// ---------------------------------------------------------------------------

/// A term on `name`, registered with type `t`, that no abbreviation renames
/// and that is no custom property, no tag and not `content`.
pub open spec fn typed_term(
    name: Seq<char>,
    t: Seq<char>,
    field_types: Map<Seq<char>, Seq<char>>,
    abbreviations: Map<Seq<char>, Seq<char>>,
) -> bool {
    &&& !abbreviations.contains_key(lowercase(name))
    &&& !is_custom_name(name)
    &&& name != "content"@
    &&& field_types.contains_key(name)
    &&& field_types[name] == t
}

proof fn lemma_type_names_differ()
    ensures
        "number"@ != "text"@,
        "number"@ != "searchTerm"@,
        "date"@ != "text"@,
        "date"@ != "searchTerm"@,
        "date"@ != "boolean"@,
        "date"@ != "number"@,
        "date"@ != "multiSelect"@,
        "boolean"@ != "text"@,
        "boolean"@ != "searchTerm"@,
        "number"@ != "boolean"@,
{
    reveal_strlit("text");
    reveal_strlit("searchTerm");
    reveal_strlit("number");
    reveal_strlit("multiSelect");
    reveal_strlit("date");
    reveal_strlit("boolean");
    assert("number"@.len() != "text"@.len());
    assert("number"@.len() != "searchTerm"@.len());
    assert("date"@[0] != "text"@[0]);
    assert("date"@.len() != "searchTerm"@.len());
    assert("date"@.len() != "boolean"@.len());
    assert("date"@.len() != "number"@.len());
    assert("date"@.len() != "multiSelect"@.len());
    assert("boolean"@.len() != "text"@.len());
    assert("boolean"@.len() != "searchTerm"@.len());
    assert("number"@.len() != "boolean"@.len());
}

/// The operator a capture gives (empty where it gives none).
pub open spec fn captured_op(c: Option<(Option<Seq<char>>, Option<Seq<char>>)>) -> Seq<char> {
    match c {
        Some((Some(op), _)) => op,
        _ => Seq::empty(),
    }
}

/// A number term with an operator compares by it: `<`, `>`, `<=`, `>=` give
/// `lessThan`, `greaterThan`, `isLessThanOrEqualTo`,
/// `isGreaterThanOrEqualTo`, and negated their opposites
/// (`isGreaterThanOrEqualTo`, `isLessThanOrEqualTo`, `greaterThan`,
/// `lessThan`); the field and its type stay.
pub proof fn law_number_operators(
    name: Seq<char>,
    value: Seq<char>,
    negative: bool,
    field_types: Map<Seq<char>, Seq<char>>,
    abbreviations: Map<Seq<char>, Seq<char>>,
)
    requires
        typed_term(name, "number"@, field_types, abbreviations),
        regex_captures(NUMBER_PATTERN@, value, "op"@, "num"@) matches Some((Some(_), Some(_))),
    ensures
        ({
            let op = captured_op(regex_captures(NUMBER_PATTERN@, value, "op"@, "num"@));
            let f = filter_model(name, value, negative, false, field_types, abbreviations);
            &&& f.field == name
            &&& f.field_type == "number"@
            &&& op == "<"@ ==> f.condition == (if negative { "isGreaterThanOrEqualTo"@ } else { "lessThan"@ })
            &&& op == ">"@ ==> f.condition == (if negative { "isLessThanOrEqualTo"@ } else { "greaterThan"@ })
            &&& op == "<="@ ==> f.condition == (if negative { "greaterThan"@ } else { "isLessThanOrEqualTo"@ })
            &&& op == ">="@ ==> f.condition == (if negative { "lessThan"@ } else { "isGreaterThanOrEqualTo"@ })
        }),
{
    lemma_condition_names();
    lemma_type_names();
    lemma_type_names_differ();
}

/// A date term with an operator compares by it: `<`, `>`, `<=`, `>=` give
/// `before`, `after`, `onOrBefore`, `onOrAfter`, and negated their
/// opposites (`onOrAfter`, `onOrBefore`, `after`, `before`); the field and
/// its type stay.
pub proof fn law_date_operators(
    name: Seq<char>,
    value: Seq<char>,
    negative: bool,
    field_types: Map<Seq<char>, Seq<char>>,
    abbreviations: Map<Seq<char>, Seq<char>>,
)
    requires
        typed_term(name, "date"@, field_types, abbreviations),
        regex_captures(DATE_PATTERN@, value, "op"@, "date"@) matches Some((Some(_), Some(_))),
    ensures
        ({
            let op = captured_op(regex_captures(DATE_PATTERN@, value, "op"@, "date"@));
            let f = filter_model(name, value, negative, false, field_types, abbreviations);
            &&& f.field == name
            &&& f.field_type == "date"@
            &&& op == "<"@ ==> f.condition == (if negative { "onOrAfter"@ } else { "before"@ })
            &&& op == ">"@ ==> f.condition == (if negative { "onOrBefore"@ } else { "after"@ })
            &&& op == "<="@ ==> f.condition == (if negative { "after"@ } else { "onOrBefore"@ })
            &&& op == ">="@ ==> f.condition == (if negative { "before"@ } else { "onOrAfter"@ })
        }),
{
    lemma_condition_names();
    lemma_type_names();
    lemma_type_names_differ();
}

/// A boolean term holds exactly where its value is neither `false` nor `0`
/// and it is not negated, or where it is both: the condition is `true` or
/// `false` accordingly, and the value the same truth.
pub proof fn law_boolean_terms(
    name: Seq<char>,
    value: Seq<char>,
    negative: bool,
    field_types: Map<Seq<char>, Seq<char>>,
    abbreviations: Map<Seq<char>, Seq<char>>,
)
    requires
        typed_term(name, "boolean"@, field_types, abbreviations),
    ensures
        ({
            let holds = if value == "false"@ || value == "0"@ { negative } else { !negative };
            let f = filter_model(name, value, negative, false, field_types, abbreviations);
            &&& f.field == name
            &&& f.condition == (if holds { "true"@ } else { "false"@ })
            &&& f.value == crate::node::ValueModel::Bool(holds)
        }),
{
    lemma_type_names();
    lemma_type_names_differ();
}

/// A text term with `*` at both ends asks that the field contain what is
/// between them, with `*` in front only that it end with the rest, and
/// with `*` at the end only that it start with the rest; negated, that it
/// not.
pub proof fn law_text_wildcards(
    name: Seq<char>,
    value: Seq<char>,
    negative: bool,
    field_types: Map<Seq<char>, Seq<char>>,
    abbreviations: Map<Seq<char>, Seq<char>>,
)
    requires
        plain_text_term(name, field_types, abbreviations),
        !is_custom_name(name),
    ensures
        ({
            let f = filter_model(name, value, negative, false, field_types, abbreviations);
            let front = value.len() > 0 && value[0] == '*';
            let back = value.len() > 0 && value[value.len() - 1] == '*';
            &&& front && back ==> f.condition == (if negative { "doesNotContain"@ } else { "contains"@ })
            &&& front && !back ==> f.condition == (if negative { "doesNotEndWith"@ } else { "endsWith"@ })
            &&& !front && back ==> f.condition == (if negative { "doesNotStartWith"@ } else { "startsWith"@ })
        }),
{
    reveal_strlit("text");
}

} // verus!
