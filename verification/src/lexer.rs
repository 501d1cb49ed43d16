//! Splitting a search query into tokens: parentheses, filters, the logical
//! operators `AND`/`OR`, `NOT`, and a closing metadata token that carries the
//! default operator.
use vstd::prelude::*;
use crate::pattern::{is_match, regex_is_match, regex_replace_all, replace_all, opt_view};
use crate::text::{
    char_is_alnum, char_is_space, chars_of, ends_with_char, first_non_space, is_alnum, is_space,
    owned, push_char, starts_with_char, string_of, string_of_char, string_of_range, to_upper,
    trimmed, trimmed_range, uppercase, same_text,
};

verus! {

/// `match:OR` as a word of its own, in any case.
pub const MATCH_OR_PATTERN: &'static str = "(?i)\\bmatch:OR\\b";

/// The kind of a token.
#[derive(Debug, Clone, Copy, PartialEq, Eq, Structural)]
pub enum TokenType {
    LeftParen,
    RightParen,
    Filter,
    LogicalOperator,
    NotOperator,
    Metadata,
}

/// A token of a search query.
#[derive(Debug, Clone)]
pub struct Token {
    pub token_type: TokenType,
    pub property: Option<String>,
    pub value: String,
    pub is_negative: bool,
    pub is_tag: bool,
    pub default_operator: Option<String>,
}

/// The model of a [`Token`].
pub struct TokenModel {
    pub kind: TokenType,
    pub property: Option<Seq<char>>,
    pub value: Seq<char>,
    pub is_negative: bool,
    pub is_tag: bool,
    pub default_operator: Option<Seq<char>>,
}

impl View for Token {
    type V = TokenModel;

    open spec fn view(&self) -> TokenModel {
        TokenModel {
            kind: self.token_type,
            property: opt_view(self.property),
            value: self.value@,
            is_negative: self.is_negative,
            is_tag: self.is_tag,
            default_operator: opt_view(self.default_operator),
        }
    }
}

pub open spec fn tokens_model(v: Seq<Token>) -> Seq<TokenModel> {
    v.map_values(|t: Token| t@)
}

// ---------------------------------------------------------------------------
// The token models.
// ---------------------------------------------------------------------------

pub open spec fn filter_token(property: Seq<char>, value: Seq<char>, is_negative: bool, is_tag: bool) -> TokenModel {
    TokenModel {
        kind: TokenType::Filter,
        property: Some(property),
        value,
        is_negative,
        is_tag,
        default_operator: None,
    }
}

pub open spec fn plain_token(kind: TokenType, value: Seq<char>) -> TokenModel {
    TokenModel {
        kind,
        property: None,
        value,
        is_negative: false,
        is_tag: false,
        default_operator: None,
    }
}

pub open spec fn metadata_token(default_operator: Seq<char>) -> TokenModel {
    TokenModel {
        kind: TokenType::Metadata,
        property: None,
        value: Seq::empty(),
        is_negative: false,
        is_tag: false,
        default_operator: Some(default_operator),
    }
}

/// A quoted text as a content value keeps its quotes.
pub open spec fn quoted(v: Seq<char>) -> Seq<char> {
    seq!['"'] + v + seq!['"']
}

// ---------------------------------------------------------------------------
// Reading pieces of the input.
// ---------------------------------------------------------------------------

pub open spec fn at(s: Seq<char>, i: int) -> Option<char> {
    if 0 <= i < s.len() {
        Some(s[i])
    } else {
        None
    }
}

/// The first position at or after `i` that does not hold whitespace.
pub open spec fn skip_spaces(s: Seq<char>, i: int) -> int {
    first_non_space(s, i, s.len() as int)
}

/// Punctuation that a bare word may hold.
pub open spec fn word_punct(c: char) -> bool {
    c == '_' || c == '<' || c == '>' || c == '=' || c == '+' || c == '-' || c == '.' || c == '['
        || c == ']' || c == ',' || c == '|' || c == '/' || c == '*'
}

pub open spec fn word_char(c: char) -> bool {
    !char_is_space(c) && c != ')' && c != ':' && c != '"' && c != '#' && (char_is_alnum(c)
        || word_punct(c))
}

/// The end of the bare word that starts at `i`.
pub open spec fn word_end(s: Seq<char>, i: int) -> int
    decreases s.len() - i,
{
    if 0 <= i < s.len() && word_char(s[i]) {
        word_end(s, i + 1)
    } else {
        i
    }
}

pub open spec fn tag_char(c: char) -> bool {
    char_is_alnum(c) || c == '_' || c == '-' || c == '/' || c == '*'
}

/// The end of the tag name that starts at `i`.
pub open spec fn tag_end(s: Seq<char>, i: int) -> int
    decreases s.len() - i,
{
    if 0 <= i < s.len() && tag_char(s[i]) {
        tag_end(s, i + 1)
    } else {
        i
    }
}

/// The text of a quoted string whose body starts at `i`, with `\"` standing
/// for `"`, and the position after its closing quote (or the end).
pub open spec fn quoted_body(s: Seq<char>, i: int) -> (Seq<char>, int)
    decreases s.len() - i,
{
    if i < 0 || i >= s.len() {
        (Seq::empty(), i)
    } else if s[i] == '"' {
        (Seq::empty(), i + 1)
    } else if s[i] == '\\' && i + 1 < s.len() && s[i + 1] == '"' {
        let (r, e) = quoted_body(s, i + 2);
        (seq!['"'] + r, e)
    } else {
        let (r, e) = quoted_body(s, i + 1);
        (seq![s[i]] + r, e)
    }
}

pub open spec fn look_stop(c: char) -> bool {
    char_is_space(c) || c == ')' || c == ':' || c == '#'
}

/// The end of the word looked ahead at from `j`.
pub open spec fn look_end(s: Seq<char>, j: int) -> int
    decreases s.len() - j,
{
    if 0 <= j < s.len() && !look_stop(s[j]) {
        look_end(s, j + 1)
    } else {
        j
    }
}

/// Whether the whitespace at `i` ends a filter value: the next word is `AND`
/// or `OR`, or a property name, or a tag.
pub open spec fn value_stops_at(s: Seq<char>, i: int) -> bool {
    let q = skip_spaces(s, i);
    let is_tag = at(s, q) == Some('#') || (at(s, q) == Some('-') && at(s, q + 1) == Some('#'));
    let dash = at(s, q) == Some('-');
    let j = if dash { q + 1 } else { q };
    let e = look_end(s, j);
    let word = if dash { seq!['-'] + s.subrange(j, e) } else { s.subrange(j, e) };
    ||| uppercase(word) == "AND"@
    ||| uppercase(word) == "OR"@
    ||| at(s, e) == Some(':')
    ||| is_tag
}

/// The value of a filter read from `i` on, with `depth` open parentheses,
/// inside quotes or not, and `acc` read so far; and where reading stopped.
pub open spec fn value_from(s: Seq<char>, i: int, depth: nat, in_quotes: bool, acc: Seq<char>) -> (Seq<char>, int)
    decreases s.len() - i,
{
    if i < 0 || i >= s.len() {
        (trimmed(acc), i)
    } else {
        let c = s[i];
        if c == '"' {
            value_from(s, i + 1, depth, !in_quotes, acc.push(c))
        } else if !in_quotes && c == '(' {
            value_from(s, i + 1, depth + 1, in_quotes, acc.push(c))
        } else if !in_quotes && c == ')' && depth == 0 {
            (trimmed(acc), i)
        } else if !in_quotes && c == ')' {
            value_from(s, i + 1, (depth - 1) as nat, in_quotes, acc.push(c))
        } else if !in_quotes && depth == 0 && char_is_space(c) && value_stops_at(s, i) {
            (trimmed(acc), i)
        } else if !in_quotes && depth == 0 && (c == ':' || c == '#') && !ends_with_char(acc, ':') {
            (trimmed(acc), i)
        } else {
            value_from(s, i + 1, depth, in_quotes, acc.push(c))
        }
    }
}

/// Whether a `-` may start a negated content word when followed by `c`.
pub open spec fn dash_word_start(c: char) -> bool {
    char_is_alnum(c) || c == '_' || c == '#'
}

pub open spec fn dash_look_stop(c: char) -> bool {
    char_is_space(c) || c == '(' || c == ')' || c == ':' || c == '"' || c == '#'
}

pub open spec fn dash_look_end(s: Seq<char>, j: int) -> int
    decreases s.len() - j,
{
    if 0 <= j < s.len() && !dash_look_stop(s[j]) {
        dash_look_end(s, j + 1)
    } else {
        j
    }
}

/// Whether the `-` at `p` starts a negated property (`-field:value`).
pub open spec fn dash_property(s: Seq<char>, p: int) -> bool {
    let q = skip_spaces(s, dash_look_end(s, p + 1));
    q < s.len() && s[q] == ':'
}

/// The tokens that the step at `p` adds, and where the next step starts.
pub open spec fn step(s: Seq<char>, p: int) -> (Seq<TokenModel>, int) {
    let p0 = skip_spaces(s, p);
    let c = s[p0];
    if c == '(' {
        (seq![plain_token(TokenType::LeftParen, seq!['('])], p0 + 1)
    } else if c == ')' {
        (seq![plain_token(TokenType::RightParen, seq![')'])], p0 + 1)
    } else if c == '#' || (c == '-' && at(s, p0 + 1) == Some('#')) {
        let negative = c == '-';
        let start = if negative { p0 + 2 } else { p0 + 1 };
        let e = tag_end(s, start);
        (seq![filter_token("tags"@, s.subrange(start, e), negative, true)], e)
    } else if c == '-' && at(s, p0 + 1) == Some('"') {
        let (v, e) = quoted_body(s, p0 + 2);
        (seq![filter_token("content"@, quoted(v), true, false)], e)
    } else if c == '-' && p0 + 1 < s.len() && dash_word_start(s[p0 + 1]) && !dash_property(s, p0) {
        let e = word_end(s, p0 + 1);
        let v = s.subrange(p0 + 1, e);
        (if v.len() > 0 { seq![filter_token("content"@, v, true, false)] } else { Seq::empty() }, e)
    } else if c == '"' {
        let (v, e) = quoted_body(s, p0 + 1);
        (seq![filter_token("content"@, quoted(v), false, false)], e)
    } else {
        let e = word_end(s, p0);
        let w = s.subrange(p0, e);
        if e == p0 {
            (Seq::empty(), p0 + 1)
        } else if uppercase(w) == "AND"@ {
            (seq![plain_token(TokenType::LogicalOperator, "AND"@)], e)
        } else if uppercase(w) == "OR"@ {
            (seq![plain_token(TokenType::LogicalOperator, "OR"@)], e)
        } else if uppercase(w) == "NOT"@ {
            let q = skip_spaces(s, e);
            if q < s.len() {
                (seq![plain_token(TokenType::NotOperator, "NOT"@)], q)
            } else {
                (seq![filter_token("content"@, w, false, false)], q)
            }
        } else {
            let t = skip_spaces(s, e);
            if t < s.len() && s[t] == ':' {
                let v0 = skip_spaces(s, t + 1);
                let (v, e2) = value_from(s, v0, 0, false, Seq::empty());
                let negative = starts_with_char(w, '-');
                let property = if negative { w.skip(1) } else { w };
                (seq![filter_token(property, v, negative, false)], e2)
            } else {
                (seq![filter_token("content"@, w, false, false)], e)
            }
        }
    }
}

/// The tokens read from position `p` on, without the metadata token.
pub open spec fn lex(s: Seq<char>, p: int) -> Seq<TokenModel>
    decreases s.len() - p,
{
    if p < 0 || skip_spaces(s, p) >= s.len() {
        Seq::empty()
    } else {
        let (t, e) = step(s, p);
        if p < e <= s.len() {
            t + lex(s, e)
        } else {
            t
        }
    }
}

/// The input a query is tokenized from: the query with `match:OR` replaced
/// by a space where it occurs.
pub open spec fn lexed_input(input: Seq<char>) -> Seq<char> {
    if regex_is_match(MATCH_OR_PATTERN@, input) == Some(true) {
        match regex_replace_all(MATCH_OR_PATTERN@, input, " "@) {
            Some(r) => r,
            None => input,
        }
    } else {
        input
    }
}

/// The default operator of a query: `OR` where it says `match:OR`, `AND`
/// otherwise.
pub open spec fn default_operator_of(input: Seq<char>) -> Seq<char> {
    if regex_is_match(MATCH_OR_PATTERN@, input) == Some(true) {
        "OR"@
    } else {
        "AND"@
    }
}

/// The tokens of a query, ending with the metadata token.
pub open spec fn query_tokens(input: Seq<char>) -> Seq<TokenModel> {
    lex(lexed_input(input), 0).push(metadata_token(default_operator_of(input)))
}

// ---------------------------------------------------------------------------
// Facts about reading.
// ---------------------------------------------------------------------------

pub proof fn lemma_first_non_space_bounds(s: Seq<char>, lo: int, hi: int)
    requires
        lo <= hi,
    ensures
        lo <= first_non_space(s, lo, hi) <= hi,
        first_non_space(s, lo, hi) < hi ==> !char_is_space(s[first_non_space(s, lo, hi)]),
    decreases hi - lo,
{
    if lo < hi && char_is_space(s[lo]) {
        lemma_first_non_space_bounds(s, lo + 1, hi);
    }
}

pub proof fn lemma_word_end(s: Seq<char>, i: int)
    requires
        0 <= i <= s.len(),
    ensures
        i <= word_end(s, i) <= s.len(),
    decreases s.len() - i,
{
    if i < s.len() && word_char(s[i]) {
        lemma_word_end(s, i + 1);
    }
}

pub proof fn lemma_tag_end(s: Seq<char>, i: int)
    requires
        0 <= i <= s.len(),
    ensures
        i <= tag_end(s, i) <= s.len(),
    decreases s.len() - i,
{
    if i < s.len() && tag_char(s[i]) {
        lemma_tag_end(s, i + 1);
    }
}

pub proof fn lemma_quoted_body(s: Seq<char>, i: int)
    requires
        0 <= i <= s.len(),
    ensures
        i <= quoted_body(s, i).1 <= s.len(),
    decreases s.len() - i,
{
    if i < s.len() && s[i] != '"' {
        if s[i] == '\\' && i + 1 < s.len() && s[i + 1] == '"' {
            lemma_quoted_body(s, i + 2);
        } else {
            lemma_quoted_body(s, i + 1);
        }
    }
}

pub proof fn lemma_value_from(s: Seq<char>, i: int, depth: nat, in_quotes: bool, acc: Seq<char>)
    requires
        0 <= i <= s.len(),
    ensures
        i <= value_from(s, i, depth, in_quotes, acc).1 <= s.len(),
    decreases s.len() - i,
{
    if i < s.len() {
        let c = s[i];
        if c == '"' {
            lemma_value_from(s, i + 1, depth, !in_quotes, acc.push(c));
        } else if !in_quotes && c == '(' {
            lemma_value_from(s, i + 1, depth + 1, in_quotes, acc.push(c));
        } else if !in_quotes && c == ')' && depth == 0 {
        } else if !in_quotes && c == ')' {
            lemma_value_from(s, i + 1, (depth - 1) as nat, in_quotes, acc.push(c));
        } else if !in_quotes && depth == 0 && char_is_space(c) && value_stops_at(s, i) {
        } else if !in_quotes && depth == 0 && (c == ':' || c == '#') && !ends_with_char(acc, ':') {
        } else {
            lemma_value_from(s, i + 1, depth, in_quotes, acc.push(c));
        }
    }
}

/// A step that starts before the end of the input moves forward.
pub proof fn lemma_step_progress(s: Seq<char>, p: int)
    requires
        0 <= p,
        skip_spaces(s, p) < s.len(),
    ensures
        p < step(s, p).1 <= s.len(),
{
    let p0 = skip_spaces(s, p);
    lemma_first_non_space_bounds(s, p, s.len() as int);
    lemma_word_end(s, p0);
    lemma_word_end(s, p0 + 1);
    lemma_tag_end(s, p0 + 1);
    if p0 + 2 <= s.len() {
        lemma_tag_end(s, p0 + 2);
        lemma_quoted_body(s, p0 + 2);
    }
    lemma_quoted_body(s, p0 + 1);
    let e = word_end(s, p0);
    lemma_first_non_space_bounds(s, e, s.len() as int);
    let t = skip_spaces(s, e);
    if t < s.len() {
        lemma_first_non_space_bounds(s, t + 1, s.len() as int);
        lemma_value_from(s, skip_spaces(s, t + 1), 0, false, Seq::empty());
    }
}

// ---------------------------------------------------------------------------
// The tokenizer.
// ---------------------------------------------------------------------------

fn is_word_char(ch: char) -> (b: bool)
    ensures
        b == word_char(ch),
{
    !is_space(ch) && ch != ')' && ch != ':' && ch != '"' && ch != '#' && (is_alnum(ch) || ch == '_'
        || ch == '<' || ch == '>' || ch == '=' || ch == '+' || ch == '-' || ch == '.' || ch == '['
        || ch == ']' || ch == ',' || ch == '|' || ch == '/' || ch == '*')
}

/// Reads the tokens of a search query.
pub struct Tokenizer {
    input: Vec<char>,
    position: usize,
    default_operator: String,
}

impl Tokenizer {
    #[verifier::type_invariant]
    spec fn position_in_input(self) -> bool {
        self.position <= self.input.len()
    }

    /// The characters being read.
    pub closed spec fn chars(&self) -> Seq<char> {
        self.input@
    }

    /// How many characters have been read.
    pub closed spec fn pos(&self) -> int {
        self.position as int
    }

    /// The operator that joins terms with no operator between them.
    pub closed spec fn default_op(&self) -> Seq<char> {
        self.default_operator@
    }

    /// A tokenizer at the start of `input`. Where `input` says `match:OR`
    /// (as a word, in any case), the default operator is `OR` and that
    /// phrase is replaced by a space; otherwise it is `AND`.
    pub fn new(input: &str) -> (t: Self)
        ensures
            t.chars() == lexed_input(input@),
            t.pos() == 0,
            t.default_op() == default_operator_of(input@),
    {
        let mut default_operator = owned("AND");
        let mut text = owned(input);
        if is_match(MATCH_OR_PATTERN, input) == Some(true) {
            default_operator = owned("OR");
            match replace_all(MATCH_OR_PATTERN, input, " ") {
                Some(r) => {
                    text = r;
                },
                None => {},
            }
        }
        Tokenizer { input: chars_of(text.as_str()), position: 0, default_operator }
    }

    fn is_eof(&self) -> (b: bool)
        ensures
            b == (self.position >= self.input.len()),
    {
        self.position >= self.input.len()
    }

    fn peek(&self, offset: usize) -> (c: Option<char>)
        ensures
            c == at(self.input@, self.position + offset),
    {
        proof {
            use_type_invariant(self);
        }
        if offset < self.input.len() - self.position {
            Some(self.input[self.position + offset])
        } else {
            None
        }
    }

    fn consume(&mut self) -> (c: Option<char>)
        ensures
            final(self).input == old(self).input,
            final(self).default_operator == old(self).default_operator,
            c == at(old(self).input@, old(self).position as int),
            final(self).position == if old(self).position < old(self).input.len() {
                old(self).position + 1
            } else {
                old(self).position as int
            },
    {
        proof {
            use_type_invariant(&*self);
        }
        if self.is_eof() {
            None
        } else {
            let ch = self.input[self.position];
            self.position = self.position + 1;
            Some(ch)
        }
    }

    fn skip_whitespace(&mut self)
        ensures
            final(self).input == old(self).input,
            final(self).default_operator == old(self).default_operator,
            final(self).position == skip_spaces(old(self).input@, old(self).position as int),
    {
        proof {
            use_type_invariant(&*self);
        }
        while self.position < self.input.len() && is_space(self.input[self.position])
            invariant
                self.input == old(self).input,
                self.default_operator == old(self).default_operator,
                self.position <= self.input.len(),
                skip_spaces(self.input@, old(self).position as int) == skip_spaces(
                    self.input@,
                    self.position as int,
                ),
            decreases self.input.len() - self.position,
        {
            self.position = self.position + 1;
        }
    }

    fn read_word_until_delimiter(&mut self) -> (w: String)
        ensures
            final(self).input == old(self).input,
            final(self).default_operator == old(self).default_operator,
            final(self).position == word_end(old(self).input@, old(self).position as int),
            w@ == old(self).input@.subrange(
                old(self).position as int,
                word_end(old(self).input@, old(self).position as int),
            ),
    {
        proof {
            use_type_invariant(&*self);
        }
        let start = self.position;
        while self.position < self.input.len() && is_word_char(self.input[self.position])
            invariant
                self.input == old(self).input,
                self.default_operator == old(self).default_operator,
                start == old(self).position,
                start <= self.position <= self.input.len(),
                word_end(self.input@, start as int) == word_end(self.input@, self.position as int),
            decreases self.input.len() - self.position,
        {
            self.position = self.position + 1;
        }
        string_of_range(&self.input, start, self.position)
    }

    fn read_quoted_string(&mut self) -> (v: String)
        ensures
            final(self).input == old(self).input,
            final(self).default_operator == old(self).default_operator,
            old(self).position < old(self).input.len() ==> ({
                let (body, end) = quoted_body(old(self).input@, old(self).position + 1);
                v@ == body && final(self).position == end
            }),
    {
        proof {
            use_type_invariant(&*self);
        }
        self.consume();
        let ghost start = self.position as int;
        let mut value = String::new();
        while self.position < self.input.len() && self.input[self.position] != '"'
            invariant
                self.input == old(self).input,
                self.default_operator == old(self).default_operator,
                self.position <= self.input.len(),
                quoted_body(self.input@, start) == (
                    value@ + quoted_body(self.input@, self.position as int).0,
                    quoted_body(self.input@, self.position as int).1,
                ),
            decreases self.input.len() - self.position,
        {
            let ghost before = value@;
            let p = self.position;
            if self.input[p] == '\\' && self.peek(1) == Some('"') {
                self.position = self.position + 1;
            }
            let ch = self.input[self.position];
            push_char(&mut value, ch);
            self.position = self.position + 1;
            assert(before + quoted_body(self.input@, p as int).0 == value@ + quoted_body(
                self.input@,
                self.position as int,
            ).0);
        }
        if self.position < self.input.len() && self.input[self.position] == '"' {
            self.position = self.position + 1;
        }
        assert(value@ + Seq::<char>::empty() == value@);
        value
    }

    /// Whether the whitespace at the current position ends a filter value.
    fn value_stops_here(&self) -> (b: bool)
        requires
            self.position < self.input.len(),
        ensures
            b == value_stops_at(self.input@, self.position as int),
    {
        proof {
            use_type_invariant(self);
        }
        let s = &self.input;
        let mut q: usize = self.position;
        while q < s.len() && is_space(s[q])
            invariant
                self.position <= q <= s.len(),
                s == &self.input,
                skip_spaces(s@, self.position as int) == skip_spaces(s@, q as int),
            decreases s.len() - q,
        {
            q += 1;
        }
        let is_tag = (q < s.len() && s[q] == '#') || (q < s.len() && s[q] == '-' && q + 1 < s.len()
            && s[q + 1] == '#');
        let dash = q < s.len() && s[q] == '-';
        let mut word: Vec<char> = Vec::new();
        let mut j: usize = q;
        if dash {
            word.push('-');
            j = q + 1;
        }
        let ghost j0 = j as int;
        let ghost w0 = word@;
        while j < s.len() && !(is_space(s[j]) || s[j] == ')' || s[j] == ':' || s[j] == '#')
            invariant
                j0 <= j <= s.len(),
                q <= j0,
                look_end(s@, j0) == look_end(s@, j as int),
                word@ == w0 + s@.subrange(j0, j as int),
            decreases s.len() - j,
        {
            word.push(s[j]);
            assert(s@.subrange(j0, j + 1) == s@.subrange(j0, j as int).push(s@[j as int]));
            j += 1;
        }
        assert(w0 == (if dash { seq!['-'] } else { Seq::<char>::empty() }));
        let text = string_of(&word);
        let upper = to_upper(text.as_str());
        same_text(upper.as_str(), "AND") || same_text(upper.as_str(), "OR") || (j < s.len() && s[j]
            == ':') || is_tag
    }

    fn read_until_logical_operator(&mut self) -> (v: String)
        ensures
            final(self).input == old(self).input,
            final(self).default_operator == old(self).default_operator,
            ({
                let (value, end) = value_from(old(self).input@, old(self).position as int, 0, false, Seq::empty());
                v@ == value && final(self).position == end
            }),
            old(self).position <= final(self).position <= old(self).input.len(),
            v@ == trimmed(old(self).input@.subrange(old(self).position as int, final(self).position as int)),
    {
        proof {
            use_type_invariant(&*self);
            let s = self.input@;
            let i = self.position as int;
            crate::laws::law_value_keeps_what_it_reads(s, i, 0, false, Seq::empty());
            lemma_value_from(s, i, 0, false, Seq::empty());
            let e = value_from(s, i, 0, false, Seq::empty()).1;
            assert(Seq::<char>::empty() + s.subrange(i, e) =~= s.subrange(i, e));
        }
        let ghost start = self.position as int;
        let mut value: Vec<char> = Vec::new();
        let mut depth: usize = 0;
        let mut in_quotes = false;
        while self.position < self.input.len()
            invariant
                self.input == old(self).input,
                self.default_operator == old(self).default_operator,
                self.position <= self.input.len(),
                depth <= self.position,
                value_from(self.input@, start, 0, false, Seq::empty()) == value_from(
                    self.input@,
                    self.position as int,
                    depth as nat,
                    in_quotes,
                    value@,
                ),
            ensures
                self.input == old(self).input,
                self.default_operator == old(self).default_operator,
                self.position <= self.input.len(),
                value_from(self.input@, start, 0, false, Seq::empty()) == (
                    trimmed(value@),
                    self.position as int,
                ),
            decreases self.input.len() - self.position,
        {
            let ch = self.input[self.position];
            if ch == '"' {
                in_quotes = !in_quotes;
                value.push(ch);
                self.position = self.position + 1;
                continue;
            }
            if !in_quotes {
                if ch == '(' {
                    depth = depth + 1;
                    value.push(ch);
                    self.position = self.position + 1;
                    continue;
                }
                if ch == ')' {
                    if depth == 0 {
                        break;
                    }
                    depth = depth - 1;
                    value.push(ch);
                    self.position = self.position + 1;
                    continue;
                }
                if depth == 0 && is_space(ch) {
                    if self.value_stops_here() {
                        break;
                    }
                }
            }
            if !in_quotes && depth == 0 && (ch == ':' || ch == '#') && !(value.len() > 0
                && value[value.len() - 1] == ':') {
                break;
            }
            value.push(ch);
            self.position = self.position + 1;
        }
        assert(value@.subrange(0, value.len() as int) == value@);
        trimmed_range(&value, 0, value.len())
    }

    fn read_tag(&mut self) -> (v: String)
        ensures
            final(self).input == old(self).input,
            final(self).default_operator == old(self).default_operator,
            final(self).position == tag_end(old(self).input@, old(self).position as int),
            v@ == old(self).input@.subrange(
                old(self).position as int,
                tag_end(old(self).input@, old(self).position as int),
            ),
    {
        proof {
            use_type_invariant(&*self);
        }
        let start = self.position;
        while self.position < self.input.len() && is_tag_char(self.input[self.position])
            invariant
                self.input == old(self).input,
                self.default_operator == old(self).default_operator,
                start == old(self).position,
                start <= self.position <= self.input.len(),
                tag_end(self.input@, start as int) == tag_end(self.input@, self.position as int),
            decreases self.input.len() - self.position,
        {
            self.position = self.position + 1;
        }
        string_of_range(&self.input, start, self.position)
    }

    /// Whether the `-` at the current position starts a negated property.
    fn dash_starts_property(&self) -> (b: bool)
        requires
            self.position < self.input.len(),
        ensures
            b == dash_property(self.input@, self.position as int),
    {
        proof {
            use_type_invariant(self);
        }
        let s = &self.input;
        let mut j: usize = self.position + 1;
        while j < s.len() && !is_dash_look_stop(s[j])
            invariant
                self.position + 1 <= j <= s.len(),
                s == &self.input,
                dash_look_end(s@, self.position + 1) == dash_look_end(s@, j as int),
            decreases s.len() - j,
        {
            j += 1;
        }
        let ghost la = j as int;
        while j < s.len() && is_space(s[j])
            invariant
                la <= j <= s.len(),
                s == &self.input,
                skip_spaces(s@, la) == skip_spaces(s@, j as int),
            decreases s.len() - j,
        {
            j += 1;
        }
        j < s.len() && s[j] == ':'
    }

    /// Where the property colon after the current position is, if the next
    /// character that is not whitespace is a colon.
    fn colon_ahead(&self) -> (r: Option<usize>)
        ensures
            ({
                let t = skip_spaces(self.input@, self.position as int);
                match r {
                    Some(c) => c == t && t < self.input.len() && self.input@[t] == ':',
                    None => !(t < self.input.len() && self.input@[t] == ':'),
                }
            }),
    {
        proof {
            use_type_invariant(self);
        }
        let mut t: usize = self.position;
        while t < self.input.len() && is_space(self.input[t])
            invariant
                self.position <= t <= self.input.len(),
                skip_spaces(self.input@, self.position as int) == skip_spaces(self.input@, t as int),
            decreases self.input.len() - t,
        {
            t += 1;
        }
        if t < self.input.len() && self.input[t] == ':' {
            Some(t)
        } else {
            None
        }
    }

    /// Reads the tokens of one step from the current position, which holds a
    /// character that is not whitespace.
    fn step_tokens(&mut self, tokens: &mut Vec<Token>)
        requires
            old(self).position < old(self).input.len(),
            !char_is_space(old(self).input@[old(self).position as int]),
        ensures
            final(self).input == old(self).input,
            final(self).default_operator == old(self).default_operator,
            tokens_model(final(tokens)@) == tokens_model(old(tokens)@) + step(
                old(self).input@,
                old(self).position as int,
            ).0,
            final(self).position == step(old(self).input@, old(self).position as int).1,
    {
        proof {
            use_type_invariant(&*self);
        }
        let ghost s = self.input@;
        let ghost p0 = self.position as int;
        let ghost before = tokens_model(tokens@);
        assert(skip_spaces(s, p0) == p0);
        let ch = self.input[self.position];
        if ch == '(' || ch == ')' {
            let kind = if ch == '(' {
                TokenType::LeftParen
            } else {
                TokenType::RightParen
            };
            push_token(tokens, plain(kind, string_of_char(ch)));
            self.consume();
            return;
        }
        if ch == '#' || (ch == '-' && self.peek(1) == Some('#')) {
            let negative = ch == '-';
            if negative {
                self.consume();
            }
            self.consume();
            let tag_value = self.read_tag();
            push_token(tokens, filter(owned("tags"), tag_value, negative, true));
            return;
        }
        if ch == '-' {
            if self.peek(1) == Some('"') {
                self.consume();
                let val = self.read_quoted_string();
                push_token(tokens, filter(owned("content"), quote(&val), true, false));
                return;
            } else if let Some(next) = self.peek(1) {
                if is_alnum(next) || next == '_' || next == '#' {
                    let is_property = self.dash_starts_property();
                    if !is_property {
                        self.consume();
                        let val = self.read_word_until_delimiter();
                        if !val.as_str().is_empty() {
                            push_token(tokens, filter(owned("content"), val, true, false));
                        } else {
                            assert(tokens_model(tokens@) =~= before + Seq::<TokenModel>::empty());
                        }
                        return;
                    }
                }
            }
        }
        if ch == '"' {
            let val = self.read_quoted_string();
            push_token(tokens, filter(owned("content"), quote(&val), false, false));
            return;
        }
        proof {
            lemma_word_end(s, p0);
        }
        let word = self.read_word_until_delimiter();
        if !word.as_str().is_empty() {
            let upper = to_upper(word.as_str());
            if same_text(upper.as_str(), "AND") {
                push_token(tokens, plain(TokenType::LogicalOperator, owned("AND")));
            } else if same_text(upper.as_str(), "OR") {
                push_token(tokens, plain(TokenType::LogicalOperator, owned("OR")));
            } else if same_text(upper.as_str(), "NOT") {
                self.skip_whitespace();
                if !self.is_eof() {
                    push_token(tokens, plain(TokenType::NotOperator, owned("NOT")));
                } else {
                    push_token(tokens, filter(owned("content"), word, false, false));
                }
            } else {
                match self.colon_ahead() {
                    Some(t) => {
                        self.position = t + 1;
                        self.skip_whitespace();
                        let value = self.read_until_logical_operator();
                        let w = chars_of(word.as_str());
                        let negative = w.len() > 0 && w[0] == '-';
                        let property = if negative {
                            let rest = string_of_range(&w, 1, w.len());
                            assert(w@.subrange(1, w.len() as int) == w@.skip(1));
                            rest
                        } else {
                            word
                        };
                        push_token(tokens, filter(property, value, negative, false));
                    },
                    None => {
                        push_token(tokens, filter(owned("content"), word, false, false));
                    },
                }
            }
            return;
        }
        assert(tokens_model(tokens@) =~= before + Seq::<TokenModel>::empty());
        self.consume();
    }

    /// Reads all tokens from the current position on, and then the metadata
    /// token that carries the default operator.
    pub fn tokenize(&mut self) -> (tokens: Vec<Token>)
        ensures
            final(self).chars() == old(self).chars(),
            final(self).default_op() == old(self).default_op(),
            tokens_model(tokens@) == lex(old(self).chars(), old(self).pos()).push(
                metadata_token(old(self).default_op()),
            ),
            tokens@.len() <= old(self).chars().len() - old(self).pos() + 1,
    {
        proof {
            use_type_invariant(&*self);
            crate::laws::lemma_lex_count(self.input@, self.position as int);
        }
        let ghost s = self.input@;
        let ghost start = self.position as int;
        let mut tokens: Vec<Token> = Vec::new();
        assert(tokens_model(tokens@) =~= Seq::<TokenModel>::empty());
        while !self.is_eof()
            invariant
                self.input@ == s,
                self.default_operator == old(self).default_operator,
                self.position <= self.input.len(),
                start <= self.position,
                tokens_model(tokens@) + lex(s, self.position as int) == lex(s, start),
            ensures
                self.input@ == s,
                self.default_operator == old(self).default_operator,
                self.position == self.input.len(),
                tokens_model(tokens@) + lex(s, self.position as int) == lex(s, start),
            decreases self.input.len() - self.position,
        {
            let ghost p = self.position as int;
            self.skip_whitespace();
            proof {
                lemma_first_non_space_bounds(s, p, s.len() as int);
            }
            if self.is_eof() {
                assert(lex(s, p) == Seq::<TokenModel>::empty());
                assert(tokens_model(tokens@) + Seq::<TokenModel>::empty() == tokens_model(tokens@));
                break;
            }
            proof {
                lemma_first_non_space_bounds(s, p, s.len() as int);
                lemma_step_progress(s, p);
            }
            let ghost before = tokens_model(tokens@);
            self.step_tokens(&mut tokens);
            proof {
                let (t, e) = step(s, p);
                assert(lex(s, p) == t + lex(s, e));
                assert(before + lex(s, p) == tokens_model(tokens@) + lex(s, e));
            }
        }
        proof {
            if self.position >= self.input.len() {
                assert(lex(s, self.position as int) == Seq::<TokenModel>::empty());
                assert(tokens_model(tokens@) + Seq::<TokenModel>::empty() == tokens_model(tokens@));
            }
        }
        let ghost before = tokens_model(tokens@);
        let op = self.default_operator.clone();
        tokens.push(
            Token {
                token_type: TokenType::Metadata,
                property: None,
                value: String::new(),
                is_negative: false,
                is_tag: false,
                default_operator: Some(op),
            },
        );
        assert(tokens_model(tokens@) =~= before.push(metadata_token(self.default_operator@)));
        tokens
    }
}

fn is_tag_char(ch: char) -> (b: bool)
    ensures
        b == tag_char(ch),
{
    is_alnum(ch) || ch == '_' || ch == '-' || ch == '/' || ch == '*'
}

fn is_dash_look_stop(ch: char) -> (b: bool)
    ensures
        b == dash_look_stop(ch),
{
    is_space(ch) || ch == '(' || ch == ')' || ch == ':' || ch == '"' || ch == '#'
}

fn plain(kind: TokenType, value: String) -> (t: Token)
    ensures
        t@ == plain_token(kind, value@),
{
    Token {
        token_type: kind,
        property: None,
        value,
        is_negative: false,
        is_tag: false,
        default_operator: None,
    }
}

fn filter(property: String, value: String, is_negative: bool, is_tag: bool) -> (t: Token)
    ensures
        t@ == filter_token(property@, value@, is_negative, is_tag),
{
    Token {
        token_type: TokenType::Filter,
        property: Some(property),
        value,
        is_negative,
        is_tag,
        default_operator: None,
    }
}

fn quote(v: &String) -> (r: String)
    ensures
        r@ == quoted(v@),
{
    let mut r = String::new();
    push_char(&mut r, '"');
    let chars = chars_of(v.as_str());
    let mut i: usize = 0;
    while i < chars.len()
        invariant
            0 <= i <= chars.len(),
            r@ == seq!['"'] + chars@.take(i as int),
        decreases chars.len() - i,
    {
        push_char(&mut r, chars[i]);
        assert(chars@.take(i + 1) == chars@.take(i as int).push(chars@[i as int]));
        i += 1;
    }
    assert(chars@.take(chars.len() as int) == chars@);
    push_char(&mut r, '"');
    r
}

fn push_token(tokens: &mut Vec<Token>, t: Token)
    ensures
        tokens_model(final(tokens)@) == tokens_model(old(tokens)@) + seq![t@],
{
    let ghost before = tokens_model(tokens@);
    let ghost m = t@;
    tokens.push(t);
    assert(tokens_model(tokens@) =~= before + seq![m]);
}

} // verus!
