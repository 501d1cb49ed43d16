# Lucille

A Lucene-like search query parser, written in Verus: the lexer, the parser,
the filter rules and the flattening into structured queries are verified
against specifications of what they return.

```
domain:google.com isFavorite:true
(tag:rust OR tag:python) AND rating:>3
-tag:spam AND NOT isArchived:true
```

## Layout

- `src/lexer.rs`: the tokenizer, with `lex`, a specification of the tokens
  of a query.
- `src/parser.rs`: the recursive-descent parser, specified by the mutually
  recursive `p_or` … `p_atom`, and `parse_query`. Terms written side by
  side are joined by the default operator, before and after an `AND`.
- `src/filter.rs`: how a `property:value` term becomes a filter, by the
  field's type (text, boolean, number, date, multi-select, tags).
- `src/structured.rs`: flattening a query tree into groups of filters.
- `src/config.rs`: the schema (field types and abbreviations).
- `src/tokenizer.rs`: full-text tokens and note text extraction.
- `src/number.rs`: the grammar of decimal number literals.
- `src/text.rs`, `src/pattern.rs`: the std text functions and the `regex`
  calls the library relies on, with the contracts it trusts them to meet:
  whitespace and the ASCII part of `is_alphanumeric`, `to_lowercase` and
  `to_uppercase` are stated; beyond ASCII, and for the regex, the results
  are named.
- `src/lookahead.rs`: the lexer and parser only look ahead.
- `src/laws.rs`: properties across functions, such as that `-` and `NOT`
  before a property term, a tag, a quoted phrase or a word give the same
  query, and that flattening keeps every filter. The `-`/`NOT` laws leave
  out queries that say `match:OR` (what the regex matches is not stated),
  terms on which the two negations differ as filters (a `content` field
  registered as boolean), negated terms that would count as positive
  content searches (such as a field named `content_tokens` of a non-text
  type), and, for words, those that `-` and `NOT` read differently (such
  as `-foo!:x`).
- `app/`: JSON conversion with `serde`, outside the verified library.

Filter values that are numbers are kept as their decimal text; `app/`
turns them into JSON numbers.
