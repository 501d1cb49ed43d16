//! Turning one `property:value` term into a filter, by the field's type.
use vstd::prelude::*;
use crate::config::ParserConfig;
use crate::node::{FilterModel, FilterValue, NodeModel, SearchNode, ValueModel, filter_node};
use crate::number::{float_syntax, is_float_literal};
use crate::pattern::{captures, regex_captures};
use crate::text::{
    chars_of, comma_pieces, ends_with_char, has_char, has_prefix, has_suffix, is_prefix, is_suffix,
    lowercase, non_empty, owned, same_text, split_commas, starts_with_char, string_of_range, to_lower,
};
use crate::tokenizer::{hybrid_tokenize, hybrid_tokens};

verus! {

/// A comparison operator followed by a decimal number.
pub const NUMBER_PATTERN: &'static str = "^(?P<op>>=?|<=?)(?P<num>-?\\d+(\\.\\d+)?)$";

/// A comparison operator followed by a date.
pub const DATE_PATTERN: &'static str = "^(?P<op>>=?|<=?)(?P<date>.+)$";

/// The property a raw property name resolves to: the field its lower-cased
/// form abbreviates, or the raw name itself.
pub open spec fn resolved_property(raw: Seq<char>, abbreviations: Map<Seq<char>, Seq<char>>) -> Seq<char> {
    if abbreviations.contains_key(lowercase(raw)) {
        abbreviations[lowercase(raw)]
    } else {
        raw
    }
}

/// Whether a property names a custom property (`cp_` prefix).
pub open spec fn is_custom_name(p: Seq<char>) -> bool {
    is_prefix("cp_"@, p)
}

/// The field a property names: without its `cp_` prefix for a custom one.
pub open spec fn field_of(p: Seq<char>) -> Seq<char> {
    if is_custom_name(p) {
        p.skip(3)
    } else {
        p
    }
}

/// A field's type: the registered one, `text` where there is none.
pub open spec fn type_of(field: Seq<char>, field_types: Map<Seq<char>, Seq<char>>) -> Seq<char> {
    if field_types.contains_key(field) {
        field_types[field]
    } else {
        "text"@
    }
}

/// The full-text-search column that a text field is matched in.
pub open spec fn fts_field(field: Seq<char>) -> Seq<char> {
    if field == "title"@ {
        "title_tokens"@
    } else if field == "description"@ || field == "desc"@ {
        "desc_tokens"@
    } else if field == "url"@ {
        "url_tokens"@
    } else if field == "text"@ {
        "text_tokens"@
    } else if field == "note"@ {
        "note_tokens"@
    } else if field == "content"@ {
        "content_tokens"@
    } else {
        field
    }
}

pub open spec fn choose_text(negative: bool, plain: Seq<char>, negated: Seq<char>) -> Seq<char> {
    if negative {
        negated
    } else {
        plain
    }
}

/// The condition of a number filter with operator `op`.
pub open spec fn number_condition(op: Seq<char>, negative: bool) -> Seq<char> {
    let c = if op == "<"@ {
        "lessThan"@
    } else if op == ">"@ {
        "greaterThan"@
    } else if op == "<="@ {
        "isLessThanOrEqualTo"@
    } else if op == ">="@ {
        "isGreaterThanOrEqualTo"@
    } else {
        "is"@
    };
    if !negative {
        c
    } else if c == "lessThan"@ {
        "isGreaterThanOrEqualTo"@
    } else if c == "greaterThan"@ {
        "isLessThanOrEqualTo"@
    } else if c == "isLessThanOrEqualTo"@ {
        "greaterThan"@
    } else if c == "isGreaterThanOrEqualTo"@ {
        "lessThan"@
    } else {
        c
    }
}

/// The condition of a date filter with operator `op`.
pub open spec fn date_condition(op: Seq<char>, negative: bool) -> Seq<char> {
    let c = if op == "<"@ {
        "before"@
    } else if op == ">"@ {
        "after"@
    } else if op == "<="@ {
        "onOrBefore"@
    } else if op == ">="@ {
        "onOrAfter"@
    } else {
        "in"@
    };
    if !negative {
        c
    } else if c == "before"@ {
        "onOrAfter"@
    } else if c == "after"@ {
        "onOrBefore"@
    } else if c == "onOrBefore"@ {
        "after"@
    } else if c == "onOrAfter"@ {
        "before"@
    } else {
        c
    }
}

pub open spec fn mk_filter(
    field: Seq<char>,
    condition: Seq<char>,
    value: ValueModel,
    field_type: Seq<char>,
    is_custom_property: bool,
) -> FilterModel {
    FilterModel { field, condition, value, field_type, is_custom_property }
}

/// The filter for a text field.
pub open spec fn text_filter(
    field: Seq<char>,
    value: Seq<char>,
    negative: bool,
    field_type: Seq<char>,
    custom: bool,
) -> FilterModel {
    let fts = fts_field(field);
    if starts_with_char(value, '*') && ends_with_char(value, '*') {
        let inner = if value.len() > 1 { value.subrange(1, value.len() - 1) } else { Seq::empty() };
        mk_filter(fts, choose_text(negative, "contains"@, "doesNotContain"@), ValueModel::Text(hybrid_tokens(inner)), field_type, custom)
    } else if starts_with_char(value, '*') {
        mk_filter(fts, choose_text(negative, "endsWith"@, "doesNotEndWith"@), ValueModel::Text(hybrid_tokens(value.skip(1))), field_type, custom)
    } else if ends_with_char(value, '*') {
        mk_filter(fts, choose_text(negative, "startsWith"@, "doesNotStartWith"@), ValueModel::Text(hybrid_tokens(value.take(value.len() - 1))), field_type, custom)
    } else if !is_suffix("_tokens"@, fts) && value.contains(',') && non_empty(comma_pieces(value)).len() > 0 {
        mk_filter(field, choose_text(negative, "isAnyOf"@, "isNotAnyOf"@), ValueModel::List(non_empty(comma_pieces(value))), field_type, custom)
    } else {
        mk_filter(fts, choose_text(negative, "is"@, "isNot"@), ValueModel::Text(hybrid_tokens(value)), field_type, custom)
    }
}

/// The filter for a boolean field: `false` and `0` mean false, anything else
/// true; a negated filter holds the opposite.
pub open spec fn boolean_filter(
    field: Seq<char>,
    value: Seq<char>,
    negative: bool,
    field_type: Seq<char>,
    custom: bool,
) -> FilterModel {
    let is_false = value == "false"@ || value == "0"@;
    let holds = negative == is_false;
    mk_filter(field, if holds { "true"@ } else { "false"@ }, ValueModel::Bool(holds), field_type, custom)
}

/// The filter for a number field.
pub open spec fn number_filter(
    field: Seq<char>,
    value: Seq<char>,
    negative: bool,
    field_type: Seq<char>,
    custom: bool,
) -> FilterModel {
    match regex_captures(NUMBER_PATTERN@, value, "op"@, "num"@) {
        Some((Some(op), Some(num))) => mk_filter(
            field,
            number_condition(op, negative),
            ValueModel::Number(if float_syntax(num) { num } else { "0"@ }),
            field_type,
            custom,
        ),
        _ => if float_syntax(value) {
            mk_filter(field, choose_text(negative, "is"@, "isNot"@), ValueModel::Number(value), field_type, custom)
        } else {
            mk_filter(field, choose_text(negative, "is"@, "isNot"@), ValueModel::Text(value), field_type, custom)
        },
    }
}

/// The filter for a multi-select field.
pub open spec fn multi_select_filter(
    field: Seq<char>,
    value: Seq<char>,
    negative: bool,
    field_type: Seq<char>,
    custom: bool,
) -> FilterModel {
    let values = comma_pieces(value);
    if values.len() == 1 {
        mk_filter(field, choose_text(negative, "includes"@, "doesNotInclude"@), ValueModel::Text(values[0]), field_type, custom)
    } else {
        mk_filter(field, choose_text(negative, "includeAnyOf"@, "excludeAnyOf"@), ValueModel::List(values), field_type, custom)
    }
}

/// The filter for a date field.
pub open spec fn date_filter(
    field: Seq<char>,
    value: Seq<char>,
    negative: bool,
    field_type: Seq<char>,
    custom: bool,
) -> FilterModel {
    match regex_captures(DATE_PATTERN@, value, "op"@, "date"@) {
        Some((Some(op), Some(date))) => mk_filter(field, date_condition(op, negative), ValueModel::Text(date), field_type, custom),
        _ => mk_filter(field, choose_text(negative, "is"@, "isNot"@), ValueModel::Text(value), field_type, custom),
    }
}

/// The filter that `process_filter_with_config` makes of a term.
pub open spec fn filter_model(
    raw_property: Seq<char>,
    value: Seq<char>,
    negative: bool,
    is_tag: bool,
    field_types: Map<Seq<char>, Seq<char>>,
    abbreviations: Map<Seq<char>, Seq<char>>,
) -> FilterModel {
    let resolved = resolved_property(raw_property, abbreviations);
    let custom = is_custom_name(resolved);
    let field = field_of(resolved);
    let field_type = type_of(field, field_types);
    if is_tag {
        mk_filter("tags"@, choose_text(negative, "includes"@, "doesNotInclude"@), ValueModel::Text(value), "multiSelect"@, false)
    } else if field_type == "text"@ || field_type == "searchTerm"@ || field == "content"@ {
        text_filter(field, value, negative, field_type, custom)
    } else if field_type == "boolean"@ {
        boolean_filter(field, value, negative, field_type, custom)
    } else if field_type == "number"@ {
        number_filter(field, value, negative, field_type, custom)
    } else if field_type == "multiSelect"@ {
        multi_select_filter(field, value, negative, field_type, custom)
    } else if field_type == "date"@ {
        date_filter(field, value, negative, field_type, custom)
    } else {
        mk_filter(field, choose_text(negative, "is"@, "isNot"@), ValueModel::Text(value), field_type, custom)
    }
}

fn pick(negative: bool, plain: &str, negated: &str) -> (s: String)
    ensures
        s@ == choose_text(negative, plain@, negated@),
{
    if negative {
        owned(negated)
    } else {
        owned(plain)
    }
}

fn fts_field_of(field: &String) -> (s: String)
    ensures
        s@ == fts_field(field@),
{
    let f = field.as_str();
    if same_text(f, "title") {
        owned("title_tokens")
    } else if same_text(f, "description") || same_text(f, "desc") {
        owned("desc_tokens")
    } else if same_text(f, "url") {
        owned("url_tokens")
    } else if same_text(f, "text") {
        owned("text_tokens")
    } else if same_text(f, "note") {
        owned("note_tokens")
    } else if same_text(f, "content") {
        owned("content_tokens")
    } else {
        field.clone()
    }
}

fn to_filter(
    field: String,
    condition: String,
    value: FilterValue,
    field_type: String,
    custom: bool,
) -> (n: SearchNode)
    ensures
        n@ == NodeModel::Filter(mk_filter(field@, condition@, value@, field_type@, custom)),
{
    filter_node(field, condition, value, field_type, custom)
}

fn text_filter_exec(
    field: String,
    value: &str,
    negative: bool,
    field_type: String,
    custom: bool,
) -> (n: SearchNode)
    ensures
        n@ == NodeModel::Filter(text_filter(field@, value@, negative, field_type@, custom)),
{
    let fts = fts_field_of(&field);
    let v = chars_of(value);
    let len = v.len();
    if len > 0 && v[0] == '*' && v[len - 1] == '*' {
        let inner = if len > 1 {
            string_of_range(&v, 1, len - 1)
        } else {
            String::new()
        };
        let tokens = hybrid_tokenize(inner.as_str());
        return to_filter(fts, pick(negative, "contains", "doesNotContain"), FilterValue::Text(tokens), field_type, custom);
    }
    if len > 0 && v[0] == '*' {
        let rest = string_of_range(&v, 1, len);
        assert(v@.subrange(1, len as int) == v@.skip(1));
        let tokens = hybrid_tokenize(rest.as_str());
        return to_filter(fts, pick(negative, "endsWith", "doesNotEndWith"), FilterValue::Text(tokens), field_type, custom);
    }
    if len > 0 && v[len - 1] == '*' {
        let rest = string_of_range(&v, 0, len - 1);
        assert(v@.subrange(0, len - 1) == v@.take(len - 1));
        let tokens = hybrid_tokenize(rest.as_str());
        return to_filter(fts, pick(negative, "startsWith", "doesNotStartWith"), FilterValue::Text(tokens), field_type, custom);
    }
    let fts_chars = chars_of(fts.as_str());
    let suffix = chars_of("_tokens");
    if !has_suffix(&fts_chars, &suffix) && has_char(&v, ',') {
        let pieces = split_commas(&v);
        let values = keep_non_empty(&pieces);
        if values.len() > 0 {
            return to_filter(field, pick(negative, "isAnyOf", "isNotAnyOf"), FilterValue::List(values), field_type, custom);
        }
    }
    let tokens = hybrid_tokenize(value);
    to_filter(fts, pick(negative, "is", "isNot"), FilterValue::Text(tokens), field_type, custom)
}

/// The strings of `pieces` that are not empty, in order.
fn keep_non_empty(pieces: &Vec<String>) -> (r: Vec<String>)
    ensures
        r.deep_view() == non_empty(pieces.deep_view()),
{
    let ghost all = pieces.deep_view();
    let mut out: Vec<String> = Vec::new();
    let mut i: usize = 0;
    while i < pieces.len()
        invariant
            0 <= i <= pieces.len(),
            all == pieces.deep_view(),
            out.deep_view() == non_empty(all.take(i as int)),
        decreases pieces.len() - i,
    {
        assert(all.take(i + 1).drop_last() == all.take(i as int));
        assert(all.take(i + 1).last() == all[i as int]);
        let v = chars_of(pieces[i].as_str());
        if v.len() > 0 {
            let ghost before = out.deep_view();
            out.push(pieces[i].clone());
            assert(out.deep_view() =~= before.push(all[i as int]));
        }
        i += 1;
    }
    assert(all.take(pieces.len() as int) == all);
    out
}

fn boolean_filter_exec(
    field: String,
    value: &str,
    negative: bool,
    field_type: String,
    custom: bool,
) -> (n: SearchNode)
    ensures
        n@ == NodeModel::Filter(boolean_filter(field@, value@, negative, field_type@, custom)),
{
    let is_false = same_text(value, "false") || same_text(value, "0");
    let final_is_negative = negative != is_false;
    let condition = if !final_is_negative {
        owned("true")
    } else {
        owned("false")
    };
    to_filter(field, condition, FilterValue::Bool(!final_is_negative), field_type, custom)
}

fn number_condition_exec(op: &String, negative: bool) -> (c: String)
    ensures
        c@ == number_condition(op@, negative),
{
    let o = op.as_str();
    let c = if same_text(o, "<") {
        owned("lessThan")
    } else if same_text(o, ">") {
        owned("greaterThan")
    } else if same_text(o, "<=") {
        owned("isLessThanOrEqualTo")
    } else if same_text(o, ">=") {
        owned("isGreaterThanOrEqualTo")
    } else {
        owned("is")
    };
    if !negative {
        return c;
    }
    let s = c.as_str();
    if same_text(s, "lessThan") {
        owned("isGreaterThanOrEqualTo")
    } else if same_text(s, "greaterThan") {
        owned("isLessThanOrEqualTo")
    } else if same_text(s, "isLessThanOrEqualTo") {
        owned("greaterThan")
    } else if same_text(s, "isGreaterThanOrEqualTo") {
        owned("lessThan")
    } else {
        c
    }
}

fn date_condition_exec(op: &String, negative: bool) -> (c: String)
    ensures
        c@ == date_condition(op@, negative),
{
    let o = op.as_str();
    let c = if same_text(o, "<") {
        owned("before")
    } else if same_text(o, ">") {
        owned("after")
    } else if same_text(o, "<=") {
        owned("onOrBefore")
    } else if same_text(o, ">=") {
        owned("onOrAfter")
    } else {
        owned("in")
    };
    if !negative {
        return c;
    }
    let s = c.as_str();
    if same_text(s, "before") {
        owned("onOrAfter")
    } else if same_text(s, "after") {
        owned("onOrBefore")
    } else if same_text(s, "onOrBefore") {
        owned("after")
    } else if same_text(s, "onOrAfter") {
        owned("before")
    } else {
        c
    }
}

fn number_filter_exec(
    field: String,
    value: &str,
    negative: bool,
    field_type: String,
    custom: bool,
) -> (n: SearchNode)
    ensures
        n@ == NodeModel::Filter(number_filter(field@, value@, negative, field_type@, custom)),
{
    let found = captures(NUMBER_PATTERN, value, "op", "num");
    if let Some((Some(op), Some(num))) = found {
        let condition = number_condition_exec(&op, negative);
        let number = if is_float_literal(num.as_str()) {
            num
        } else {
            owned("0")
        };
        return to_filter(field, condition, FilterValue::Number(number), field_type, custom);
    }
    if is_float_literal(value) {
        to_filter(field, pick(negative, "is", "isNot"), FilterValue::Number(owned(value)), field_type, custom)
    } else {
        to_filter(field, pick(negative, "is", "isNot"), FilterValue::Text(owned(value)), field_type, custom)
    }
}

fn multi_select_filter_exec(
    field: String,
    value: &str,
    negative: bool,
    field_type: String,
    custom: bool,
) -> (n: SearchNode)
    ensures
        n@ == NodeModel::Filter(multi_select_filter(field@, value@, negative, field_type@, custom)),
{
    let v = chars_of(value);
    let values = split_commas(&v);
    if values.len() == 1 {
        let only = values[0].clone();
        to_filter(field, pick(negative, "includes", "doesNotInclude"), FilterValue::Text(only), field_type, custom)
    } else {
        to_filter(field, pick(negative, "includeAnyOf", "excludeAnyOf"), FilterValue::List(values), field_type, custom)
    }
}

fn date_filter_exec(
    field: String,
    value: &str,
    negative: bool,
    field_type: String,
    custom: bool,
) -> (n: SearchNode)
    ensures
        n@ == NodeModel::Filter(date_filter(field@, value@, negative, field_type@, custom)),
{
    let found = captures(DATE_PATTERN, value, "op", "date");
    if let Some((Some(op), Some(date))) = found {
        let condition = date_condition_exec(&op, negative);
        return to_filter(field, condition, FilterValue::Text(date), field_type, custom);
    }
    to_filter(field, pick(negative, "is", "isNot"), FilterValue::Text(owned(value)), field_type, custom)
}

/// Makes the filter for the term `raw_property:value` under `config`.
///
/// The property is resolved through the abbreviations (by its lower-cased
/// form), a `cp_` prefix marks a custom property and is dropped, and the
/// field's type decides the condition and value: tags and multi-select
/// fields test membership, text fields match full-text tokens (with `*`
/// wildcards and comma-separated alternatives), booleans read
/// `true`/`false`/`0`/`1`, and numbers and dates take `<`, `>`, `<=` and
/// `>=`. A negated term gets the opposite condition. There is always a
/// filter.
pub fn process_filter_with_config(
    raw_property: &str,
    value: &str,
    is_negative_from_not: bool,
    is_tag: bool,
    config: &ParserConfig,
) -> (r: Option<SearchNode>)
    ensures
        r is Some,
        r->0@ == NodeModel::Filter(
            filter_model(
                raw_property@,
                value@,
                is_negative_from_not,
                is_tag,
                config.field_types.view(),
                config.abbreviations.view(),
            ),
        ),
{
    let negative = is_negative_from_not;
    let lower_prop = to_lower(raw_property);
    let resolved = match config.abbreviations.get(lower_prop.as_str()) {
        Some(full) => full.clone(),
        None => owned(raw_property),
    };
    let chars = chars_of(resolved.as_str());
    let cp = chars_of("cp_");
    let is_custom = has_prefix(&chars, &cp);
    proof {
        reveal_strlit("cp_");
        assert(cp@.len() == 3);
    }
    let field = if is_custom {
        let f = string_of_range(&chars, 3, chars.len());
        assert(chars@.subrange(3, chars@.len() as int) == chars@.skip(3));
        f
    } else {
        resolved
    };
    let field_type = match config.field_types.get(field.as_str()) {
        Some(t) => t.clone(),
        None => owned("text"),
    };
    if is_tag {
        return Some(
            to_filter(owned("tags"), pick(negative, "includes", "doesNotInclude"), FilterValue::Text(owned(value)), owned("multiSelect"), false),
        );
    }
    let t = field_type.as_str();
    if same_text(t, "text") || same_text(t, "searchTerm") || same_text(field.as_str(), "content") {
        Some(text_filter_exec(field, value, negative, field_type, is_custom))
    } else if same_text(t, "boolean") {
        Some(boolean_filter_exec(field, value, negative, field_type, is_custom))
    } else if same_text(t, "number") {
        Some(number_filter_exec(field, value, negative, field_type, is_custom))
    } else if same_text(t, "multiSelect") {
        Some(multi_select_filter_exec(field, value, negative, field_type, is_custom))
    } else if same_text(t, "date") {
        Some(date_filter_exec(field, value, negative, field_type, is_custom))
    } else {
        Some(to_filter(field, pick(negative, "is", "isNot"), FilterValue::Text(owned(value)), field_type, is_custom))
    }
}

/// Makes the filter for the term `raw_property:value` under the built-in
/// schema.
pub fn process_filter(raw_property: &str, value: &str, is_negative_from_not: bool, is_tag: bool) -> (r:
    Option<SearchNode>)
    ensures
        r is Some,
        r->0@ == NodeModel::Filter(
            filter_model(
                raw_property@,
                value@,
                is_negative_from_not,
                is_tag,
                crate::config::cherrypic_field_types(),
                crate::config::cherrypic_abbreviations(),
            ),
        ),
{
    let config = ParserConfig::default();
    process_filter_with_config(raw_property, value, is_negative_from_not, is_tag, &config)
}

} // verus!
