//! Parsing tokens into a query tree: `OR` binds loosest, then `AND` (written
//! or implied by juxtaposition), then `NOT`; parentheses group.
use vstd::prelude::*;
use crate::config::ParserConfig;
use crate::filter::{filter_model, process_filter_with_config};
use crate::lexer::{Token, TokenModel, TokenType, Tokenizer, query_tokens, tokens_model};
use crate::node::{FilterModel, NodeModel, SearchNode, node_model};
use crate::text::{chars_of, contains_seq, lowercase, owned, same_text, to_lower};

verus! {

/// What the parser works on: the tokens without metadata, whether terms
/// with no operator between them are joined by `OR`, and the schema.
pub struct ParseEnv {
    pub tokens: Seq<TokenModel>,
    pub default_or: bool,
    pub field_types: Map<Seq<char>, Seq<char>>,
    pub abbreviations: Map<Seq<char>, Seq<char>>,
}

/// The tokens that are not metadata, in order.
pub open spec fn without_metadata(ts: Seq<TokenModel>) -> Seq<TokenModel>
    decreases ts.len(),
{
    if ts.len() == 0 {
        Seq::empty()
    } else if ts.last().kind == TokenType::Metadata {
        without_metadata(ts.drop_last())
    } else {
        without_metadata(ts.drop_last()).push(ts.last())
    }
}

/// The default operator the last metadata token that carries one gives, or
/// `AND`.
pub open spec fn chosen_default(ts: Seq<TokenModel>) -> Seq<char>
    decreases ts.len(),
{
    if ts.len() == 0 {
        "AND"@
    } else if ts.last().kind == TokenType::Metadata && ts.last().default_operator is Some {
        ts.last().default_operator->0
    } else {
        chosen_default(ts.drop_last())
    }
}

pub open spec fn is_kind(env: ParseEnv, p: int, k: TokenType) -> bool {
    0 <= p < env.tokens.len() && env.tokens[p].kind == k
}

pub open spec fn is_operator(env: ParseEnv, p: int, v: Seq<char>) -> bool {
    is_kind(env, p, TokenType::LogicalOperator) && env.tokens[p].value == v
}

/// Whether an operator is left dangling at `p`: at the end, or before
/// another operator or a closing parenthesis.
pub open spec fn dangling(env: ParseEnv, p: int) -> bool {
    p >= env.tokens.len() || is_kind(env, p, TokenType::LogicalOperator) || is_kind(
        env,
        p,
        TokenType::RightParen,
    )
}

/// The node that `NOT` makes of `e`: a negated filter, the inner node of a
/// negated node, or `e` negated.
pub open spec fn negate_node(e: NodeModel) -> NodeModel {
    match e {
        NodeModel::Not(inner) => *inner,
        _ => NodeModel::Not(Box::new(e)),
    }
}

/// The filter a filter token stands for.
pub open spec fn token_filter(env: ParseEnv, t: TokenModel) -> FilterModel {
    let property = match t.property {
        Some(p) => p,
        None => "content"@,
    };
    filter_model(property, t.value, t.is_negative, t.is_tag, env.field_types, env.abbreviations)
}

/// An expression: terms joined by `OR`.
pub open spec fn p_or(env: ParseEnv, p: int) -> Option<(NodeModel, int)>
    decreases env.tokens.len() - p, 6int,
{
    match p_and(env, p) {
        None => None,
        Some((l, p1)) => if p <= p1 <= env.tokens.len() {
            or_loop(env, l, p1)
        } else {
            None
        },
    }
}

pub open spec fn or_loop(env: ParseEnv, left: NodeModel, p: int) -> Option<(NodeModel, int)>
    decreases env.tokens.len() - p, 5int,
{
    if 0 <= p < env.tokens.len() && is_operator(env, p, "OR"@) {
        if dangling(env, p + 1) {
            Some((left, p + 1))
        } else {
            match p_and(env, p + 1) {
                None => None,
                Some((r, p2)) => if p + 1 < p2 <= env.tokens.len() {
                    or_loop(env, NodeModel::Or(Box::new(left), Box::new(r)), p2)
                } else {
                    None
                },
            }
        }
    } else {
        Some((left, p))
    }
}

/// A term: factors joined by juxtaposition (by the default operator) or by
/// `AND`, in any mix.
pub open spec fn p_and(env: ParseEnv, p: int) -> Option<(NodeModel, int)>
    decreases env.tokens.len() - p, 4int,
{
    match p_unary(env, p) {
        None => None,
        Some((l, p1)) => if p <= p1 <= env.tokens.len() {
            and_loop1(env, l, p1)
        } else {
            None
        },
    }
}

/// The rest of a term after `left`: a factor written next to it is joined
/// by the default operator; otherwise an `AND` may follow.
pub open spec fn and_loop1(env: ParseEnv, left: NodeModel, p: int) -> Option<(NodeModel, int)>
    decreases env.tokens.len() - p, 3int,
{
    if 0 <= p < env.tokens.len() && !is_kind(env, p, TokenType::RightParen) && !is_kind(
        env,
        p,
        TokenType::LogicalOperator,
    ) {
        match p_unary(env, p) {
            None => None,
            Some((r, p2)) => if p < p2 <= env.tokens.len() {
                let node = if env.default_or {
                    NodeModel::Or(Box::new(left), Box::new(r))
                } else {
                    NodeModel::And(Box::new(left), Box::new(r))
                };
                and_loop1(env, node, p2)
            } else {
                None
            },
        }
    } else {
        and_loop2(env, left, p)
    }
}

/// The rest of a term at a logical operator: `AND` and a factor join `left`
/// and the term goes on; anything else ends it (a dangling `AND` is
/// dropped).
pub open spec fn and_loop2(env: ParseEnv, left: NodeModel, p: int) -> Option<(NodeModel, int)>
    decreases env.tokens.len() - p, 2int,
{
    if 0 <= p < env.tokens.len() && is_operator(env, p, "AND"@) {
        if dangling(env, p + 1) {
            Some((left, p + 1))
        } else {
            match p_unary(env, p + 1) {
                None => None,
                Some((r, p2)) => if p + 1 < p2 <= env.tokens.len() {
                    and_loop1(env, NodeModel::And(Box::new(left), Box::new(r)), p2)
                } else {
                    None
                },
            }
        }
    } else {
        Some((left, p))
    }
}

/// A factor: an atom, negated by a `NOT` before it.
pub open spec fn p_unary(env: ParseEnv, p: int) -> Option<(NodeModel, int)>
    decreases env.tokens.len() - p, 1int,
{
    if p < 0 || p >= env.tokens.len() {
        None
    } else if is_kind(env, p, TokenType::NotOperator) {
        if dangling(env, p + 1) {
            None
        } else {
            match p_atom(env, p + 1) {
                None => None,
                Some((e, p2)) => Some((negate_node(e), p2)),
            }
        }
    } else {
        p_atom(env, p)
    }
}

/// An atom: a filter, or an expression in parentheses (the closing one may
/// be missing).
pub open spec fn p_atom(env: ParseEnv, p: int) -> Option<(NodeModel, int)>
    decreases env.tokens.len() - p, 0int,
{
    if p < 0 || p >= env.tokens.len() {
        None
    } else if is_kind(env, p, TokenType::Filter) {
        Some((NodeModel::Filter(token_filter(env, env.tokens[p])), p + 1))
    } else if is_kind(env, p, TokenType::LeftParen) {
        match p_or(env, p + 1) {
            None => None,
            Some((e, p2)) => if p + 1 <= p2 <= env.tokens.len() {
                Some((e, if is_kind(env, p2, TokenType::RightParen) { p2 + 1 } else { p2 }))
            } else {
                None
            },
        }
    } else {
        None
    }
}

/// What `Parser::parse` returns from position `p`.
pub open spec fn parse_tokens(env: ParseEnv, p: int) -> Option<NodeModel> {
    if env.tokens.len() == 0 {
        None
    } else {
        match p_or(env, p) {
            Some((n, _)) => Some(n),
            None => None,
        }
    }
}

pub open spec fn opt_node_model(o: Option<SearchNode>) -> Option<NodeModel> {
    match o {
        Some(n) => Some(n@),
        None => None,
    }
}

pub open spec fn parse_result(r: Option<SearchNode>, end: int, spec_result: Option<(NodeModel, int)>) -> bool {
    match r {
        Some(n) => spec_result == Some((n@, end)),
        None => spec_result is None,
    }
}

/// Parses tokens into a query tree.
pub struct Parser {
    tokens: Vec<Token>,
    position: usize,
    default_operator: String,
    config: ParserConfig,
}

impl Parser {
    #[verifier::type_invariant]
    spec fn position_in_tokens(self) -> bool {
        self.position <= self.tokens.len()
    }

    /// What the parser works on.
    pub closed spec fn env(&self) -> ParseEnv {
        ParseEnv {
            tokens: tokens_model(self.tokens@),
            default_or: self.default_operator@ == "OR"@,
            field_types: self.config.field_types.view(),
            abbreviations: self.config.abbreviations.view(),
        }
    }

    /// How many tokens have been read.
    pub closed spec fn pos(&self) -> int {
        self.position as int
    }

    /// The operator that joins factors written next to each other.
    pub closed spec fn default_op(&self) -> Seq<char> {
        self.default_operator@
    }

    /// A parser for `tokens` under the built-in schema.
    pub fn new(tokens: Vec<Token>) -> (p: Self)
        ensures
            p.env() == (ParseEnv {
                tokens: without_metadata(tokens_model(tokens@)),
                default_or: chosen_default(tokens_model(tokens@)) == "OR"@,
                field_types: crate::config::cherrypic_field_types(),
                abbreviations: crate::config::cherrypic_abbreviations(),
            }),
            p.pos() == 0,
            p.default_op() == chosen_default(tokens_model(tokens@)),
    {
        Self::with_config(tokens, ParserConfig::default())
    }

    /// A parser for `tokens` under `config`. Metadata tokens are dropped;
    /// the last one that carries a default operator sets it (`AND` where
    /// none does).
    pub fn with_config(tokens: Vec<Token>, config: ParserConfig) -> (p: Self)
        ensures
            p.env() == (ParseEnv {
                tokens: without_metadata(tokens_model(tokens@)),
                default_or: chosen_default(tokens_model(tokens@)) == "OR"@,
                field_types: config.field_types.view(),
                abbreviations: config.abbreviations.view(),
            }),
            p.pos() == 0,
            p.default_op() == chosen_default(tokens_model(tokens@)),
    {
        let ghost all = tokens_model(tokens@);
        let mut default_operator = owned("AND");
        let mut filtered_tokens: Vec<Token> = Vec::new();
        let mut tokens = tokens;
        let mut rest: Vec<Token> = Vec::new();
        let ghost whole = tokens@;
        // Take the tokens off the back, then restore their order.
        let mut i: usize = tokens.len();
        while i > 0
            invariant
                tokens@ == whole.take(i as int),
                i <= whole.len(),
                tokens_model(rest@) == tokens_model(whole).subrange(i as int, whole.len() as int).reverse(),
            decreases i,
        {
            let t = tokens.pop().unwrap();
            let ghost before = tokens_model(rest@);
            let ghost m = t@;
            rest.push(t);
            proof {
                assert(tokens_model(rest@) =~= before.push(m));
                assert(tokens_model(whole).subrange(i - 1, whole.len() as int).reverse() =~= tokens_model(
                    whole,
                ).subrange(i as int, whole.len() as int).reverse().push(m));
            }
            i -= 1;
        }
        proof {
            assert(tokens_model(whole) =~= all);
            assert(tokens_model(whole).subrange(0, whole.len() as int) =~= all);
        }
        let ghost mut seen: Seq<TokenModel> = Seq::empty();
        while rest.len() > 0
            invariant
                all == seen + tokens_model(rest@).reverse(),
                tokens_model(filtered_tokens@) == without_metadata(seen),
                default_operator@ == chosen_default(seen),
            decreases rest.len(),
        {
            let ghost before = tokens_model(rest@);
            let t = rest.pop().unwrap();
            let ghost old_seen = seen;
            proof {
                assert(before =~= tokens_model(rest@).push(t@));
                assert(before.reverse() =~= seq![t@] + tokens_model(rest@).reverse());
                seen = seen.push(t@);
                assert(seen.drop_last() =~= old_seen);
                assert(seen.last() == t@);
                assert(all =~= seen + tokens_model(rest@).reverse());
            }
            if t.token_type == TokenType::Metadata {
                if let Some(op) = t.default_operator {
                    default_operator = op;
                }
            } else {
                let ghost fb = tokens_model(filtered_tokens@);
                let ghost m = t@;
                filtered_tokens.push(t);
                assert(tokens_model(filtered_tokens@) =~= fb.push(m));
            }
        }
        proof {
            assert(tokens_model(rest@).reverse() =~= Seq::<TokenModel>::empty());
            assert(all =~= seen);
        }
        Parser { tokens: filtered_tokens, position: 0, default_operator, config }
    }

    fn is_eof(&self) -> (b: bool)
        ensures
            b == (self.position >= self.tokens.len()),
    {
        self.position >= self.tokens.len()
    }

    fn peek(&self) -> (t: Option<&Token>)
        ensures
            match t {
                Some(t) => self.position < self.tokens.len() && *t == self.tokens@[self.position as int],
                None => self.position >= self.tokens.len(),
            },
    {
        if self.position < self.tokens.len() {
            Some(&self.tokens[self.position])
        } else {
            None
        }
    }

    fn consume(&mut self)
        ensures
            final(self).tokens == old(self).tokens,
            final(self).default_operator == old(self).default_operator,
            final(self).config == old(self).config,
            final(self).position == if old(self).position < old(self).tokens.len() {
                old(self).position + 1
            } else {
                old(self).position as int
            },
    {
        proof {
            use_type_invariant(&*self);
        }
        if !self.is_eof() {
            self.position = self.position + 1;
        }
    }

    fn check(&self, token_type: TokenType) -> (b: bool)
        ensures
            b == is_kind(self.env(), self.position as int, token_type),
    {
        match self.peek() {
            Some(t) => t.token_type == token_type,
            None => false,
        }
    }

    fn check_operator(&self, word: &str) -> (b: bool)
        ensures
            b == is_operator(self.env(), self.position as int, word@),
    {
        match self.peek() {
            Some(t) => t.token_type == TokenType::LogicalOperator && same_text(t.value.as_str(), word),
            None => false,
        }
    }

    /// Parses an expression from the current position; `None` where the
    /// tokens do not form one.
    pub fn parse(&mut self) -> (r: Option<SearchNode>)
        ensures
            opt_node_model(r) == parse_tokens(old(self).env(), old(self).pos()),
    {
        if self.tokens.len() == 0 {
            return None;
        }
        self.parse_expression()
    }

    fn parse_expression(&mut self) -> (r: Option<SearchNode>)
        ensures
            final(self).tokens == old(self).tokens,
            final(self).default_operator == old(self).default_operator,
            final(self).config == old(self).config,
            parse_result(r, final(self).position as int, p_or(old(self).env(), old(self).position as int)),
            r is Some ==> old(self).position < final(self).position,
        decreases old(self).tokens.len() - old(self).position, 7int,
    {
        self.parse_or()
    }

    fn parse_or(&mut self) -> (r: Option<SearchNode>)
        ensures
            final(self).tokens == old(self).tokens,
            final(self).default_operator == old(self).default_operator,
            final(self).config == old(self).config,
            parse_result(r, final(self).position as int, p_or(old(self).env(), old(self).position as int)),
            r is Some ==> old(self).position < final(self).position,
        decreases old(self).tokens.len() - old(self).position, 6int,
    {
        proof {
            use_type_invariant(&*self);
        }
        let ghost env = self.env();
        let ghost start = self.position as int;
        let mut left = match self.parse_and() {
            Some(l) => l,
            None => {
                return None;
            },
        };
        proof {
            use_type_invariant(&*self);
        }
        loop
            invariant
                self.tokens == old(self).tokens,
                self.default_operator == old(self).default_operator,
                self.config == old(self).config,
                env == self.env(),
                env == old(self).env(),
                start == old(self).position,
                start < self.position <= self.tokens.len(),
                p_or(env, start) == or_loop(env, left@, self.position as int),
            decreases self.tokens.len() - self.position,
        {
            if !(!self.is_eof() && self.check_operator("OR")) {
                return Some(left);
            }
            self.consume();
            if self.is_eof() || self.check(TokenType::LogicalOperator) || self.check(TokenType::RightParen) {
                return Some(left);
            }
            let right = match self.parse_and() {
                Some(r) => r,
                None => {
                    return None;
                },
            };
            proof {
                use_type_invariant(&*self);
            }
            left = SearchNode::Or { left: Box::new(left), right: Box::new(right) };
        }
    }

    fn parse_and(&mut self) -> (r: Option<SearchNode>)
        ensures
            final(self).tokens == old(self).tokens,
            final(self).default_operator == old(self).default_operator,
            final(self).config == old(self).config,
            parse_result(r, final(self).position as int, p_and(old(self).env(), old(self).position as int)),
            r is Some ==> old(self).position < final(self).position,
        decreases old(self).tokens.len() - old(self).position, 4int,
    {
        proof {
            use_type_invariant(&*self);
        }
        let ghost env = self.env();
        let ghost start = self.position as int;
        let mut left = match self.parse_unary() {
            Some(l) => l,
            None => {
                return None;
            },
        };
        proof {
            use_type_invariant(&*self);
        }
        let is_or = same_text(self.default_operator.as_str(), "OR");
        loop
            invariant
                self.tokens == old(self).tokens,
                self.default_operator == old(self).default_operator,
                self.config == old(self).config,
                env == self.env(),
                env == old(self).env(),
                start == old(self).position,
                is_or == env.default_or,
                start < self.position <= self.tokens.len(),
                p_and(env, start) == and_loop1(env, left@, self.position as int),
            decreases self.tokens.len() - self.position,
        {
            if !self.is_eof() && !self.check(TokenType::RightParen) && !self.check(TokenType::LogicalOperator) {
                // A factor written next to the term.
                let right = match self.parse_unary() {
                    Some(r) => r,
                    None => {
                        return None;
                    },
                };
                proof {
                    use_type_invariant(&*self);
                }
                left = if is_or {
                    SearchNode::Or { left: Box::new(left), right: Box::new(right) }
                } else {
                    SearchNode::And { left: Box::new(left), right: Box::new(right) }
                };
            } else {
                let ghost p0 = self.position as int;
                assert(and_loop1(env, left@, p0) == and_loop2(env, left@, p0));
                if !(!self.is_eof() && self.check_operator("AND")) {
                    assert(and_loop2(env, left@, p0) == Some((left@, p0)));
                    return Some(left);
                }
                self.consume();
                if self.is_eof() || self.check(TokenType::LogicalOperator) || self.check(TokenType::RightParen) {
                    assert(dangling(env, p0 + 1));
                    assert(and_loop2(env, left@, p0) == Some((left@, p0 + 1)));
                    return Some(left);
                }
                let right = match self.parse_unary() {
                    Some(r) => r,
                    None => {
                        return None;
                    },
                };
                proof {
                    use_type_invariant(&*self);
                }
                left = SearchNode::And { left: Box::new(left), right: Box::new(right) };
            }
        }
    }

    fn parse_unary(&mut self) -> (r: Option<SearchNode>)
        ensures
            final(self).tokens == old(self).tokens,
            final(self).default_operator == old(self).default_operator,
            final(self).config == old(self).config,
            parse_result(r, final(self).position as int, p_unary(old(self).env(), old(self).position as int)),
            r is Some ==> old(self).position < final(self).position,
        decreases old(self).tokens.len() - old(self).position, 1int,
    {
        proof {
            use_type_invariant(&*self);
        }
        if self.is_eof() {
            return None;
        }
        if self.check(TokenType::NotOperator) {
            self.consume();
            if self.is_eof() || self.check(TokenType::LogicalOperator) || self.check(TokenType::RightParen) {
                return None;
            }
            let expr = match self.parse_atom() {
                Some(e) => e,
                None => {
                    return None;
                },
            };
            return match expr {
                SearchNode::Not { expression } => {
                    proof {
                        reveal_with_fuel(node_model, 2);
                    }
                    Some(*expression)
                },
                other => Some(SearchNode::Not { expression: Box::new(other) }),
            };
        }
        self.parse_atom()
    }

    fn parse_atom(&mut self) -> (r: Option<SearchNode>)
        ensures
            final(self).tokens == old(self).tokens,
            final(self).default_operator == old(self).default_operator,
            final(self).config == old(self).config,
            parse_result(r, final(self).position as int, p_atom(old(self).env(), old(self).position as int)),
            r is Some ==> old(self).position < final(self).position,
        decreases old(self).tokens.len() - old(self).position, 0int,
    {
        proof {
            use_type_invariant(&*self);
        }
        if self.is_eof() {
            return None;
        }
        if self.check(TokenType::Filter) {
            let token = &self.tokens[self.position];
            let raw_property = match &token.property {
                Some(p) => p.clone(),
                None => owned("content"),
            };
            let node = process_filter_with_config(
                raw_property.as_str(),
                token.value.as_str(),
                token.is_negative,
                token.is_tag,
                &self.config,
            );
            self.consume();
            return node;
        }
        if self.check(TokenType::LeftParen) {
            self.consume();
            let expr = self.parse_expression();
            proof {
                use_type_invariant(&*self);
            }
            if !self.is_eof() && self.check(TokenType::RightParen) {
                self.consume();
            }
            return expr;
        }
        self.consume();
        None
    }
}

// ---------------------------------------------------------------------------
// Whole queries.
// ---------------------------------------------------------------------------

/// Whether a node contains an `AND` that is not under a filter.
pub open spec fn contains_and_node(n: NodeModel) -> bool
    decreases n,
{
    match n {
        NodeModel::And(_, _) => true,
        NodeModel::Or(l, r) => contains_and_node(*l) || contains_and_node(*r),
        NodeModel::Not(e) => contains_and_node(*e),
        NodeModel::Filter(_) => false,
    }
}

/// Whether a node is only positive content searches joined by `AND`.
pub open spec fn pure_content_and(n: NodeModel) -> bool
    decreases n,
{
    match n {
        NodeModel::Filter(f) => f.field == "content_tokens"@ && !contains_seq(lowercase(f.condition), "not"@),
        NodeModel::And(l, r) => pure_content_and(*l) && pure_content_and(*r),
        _ => false,
    }
}

/// The node with every `AND` turned into `OR`.
pub open spec fn and_to_or(n: NodeModel) -> NodeModel
    decreases n,
{
    match n {
        NodeModel::And(l, r) => NodeModel::Or(Box::new(and_to_or(*l)), Box::new(and_to_or(*r))),
        NodeModel::Or(l, r) => NodeModel::Or(Box::new(and_to_or(*l)), Box::new(and_to_or(*r))),
        NodeModel::Not(e) => NodeModel::Not(Box::new(and_to_or(*e))),
        NodeModel::Filter(f) => NodeModel::Filter(f),
    }
}

/// The environment the parser of a query works in.
pub open spec fn query_env(
    input: Seq<char>,
    field_types: Map<Seq<char>, Seq<char>>,
    abbreviations: Map<Seq<char>, Seq<char>>,
) -> ParseEnv {
    let ts = query_tokens(input);
    ParseEnv {
        tokens: without_metadata(ts),
        default_or: chosen_default(ts) == "OR"@,
        field_types,
        abbreviations,
    }
}

/// What `parse_query_with_config` returns: the parsed tree, with its `AND`s
/// turned into `OR`s where it is only content searches joined by `AND`.
pub open spec fn query_tree(
    input: Seq<char>,
    field_types: Map<Seq<char>, Seq<char>>,
    abbreviations: Map<Seq<char>, Seq<char>>,
) -> Option<NodeModel> {
    match parse_tokens(query_env(input, field_types, abbreviations), 0) {
        Some(n) => Some(
            if contains_and_node(n) && pure_content_and(n) {
                and_to_or(n)
            } else {
                n
            },
        ),
        None => None,
    }
}

fn contains_text(hay: &Vec<char>, needle: &Vec<char>) -> (b: bool)
    ensures
        b == contains_seq(hay@, needle@),
{
    if needle.len() > hay.len() {
        return false;
    }
    let mut i: usize = 0;
    while i <= hay.len() - needle.len()
        invariant
            needle.len() <= hay.len(),
            0 <= i <= hay.len() - needle.len() + 1,
            forall|k: int| 0 <= k < i ==> #[trigger] hay@.subrange(k, k + needle.len()) != needle@,
        decreases hay.len() - i,
    {
        let mut j: usize = 0;
        while j < needle.len() && hay[i + j] == needle[j]
            invariant
                0 <= j <= needle.len(),
                i + needle.len() <= hay.len(),
                hay@.subrange(i as int, i + j) == needle@.subrange(0, j as int),
            decreases needle.len() - j,
        {
            assert(hay@.subrange(i as int, i + j + 1) == hay@.subrange(i as int, i + j).push(hay@[i + j]));
            assert(needle@.subrange(0, j + 1) == needle@.subrange(0, j as int).push(needle@[j as int]));
            j += 1;
        }
        if j == needle.len() {
            assert(needle@.subrange(0, needle.len() as int) == needle@);
            assert(hay@.subrange(i as int, i + needle.len()) == needle@);
            return true;
        }
        assert(hay@.subrange(i as int, i + needle.len())[j as int] != needle@[j as int]);
        i += 1;
    }
    assert forall|k: int| 0 <= k && k + needle.len() <= hay.len() implies #[trigger] hay@.subrange(
        k,
        k + needle.len(),
    ) != needle@ by {}
    false
}

fn is_pure_content_and_tree(node: &SearchNode) -> (b: bool)
    ensures
        b == pure_content_and(node@),
    decreases node,
{
    match node {
        SearchNode::Filter { field, condition, .. } => {
            if !same_text(field.as_str(), "content_tokens") {
                return false;
            }
            let lower = to_lower(condition.as_str());
            let hay = chars_of(lower.as_str());
            let needle = chars_of("not");
            !contains_text(&hay, &needle)
        },
        SearchNode::And { left, right } => is_pure_content_and_tree(left) && is_pure_content_and_tree(
            right,
        ),
        _ => false,
    }
}

fn contains_and(node: &SearchNode) -> (b: bool)
    ensures
        b == contains_and_node(node@),
    decreases node,
{
    match node {
        SearchNode::And { .. } => true,
        SearchNode::Or { left, right } => contains_and(left) || contains_and(right),
        SearchNode::Not { expression } => contains_and(expression),
        _ => false,
    }
}

fn convert_and_to_or(node: SearchNode) -> (r: SearchNode)
    ensures
        r@ == and_to_or(node@),
    decreases node,
{
    match node {
        SearchNode::And { left, right } => SearchNode::Or {
            left: Box::new(convert_and_to_or(*left)),
            right: Box::new(convert_and_to_or(*right)),
        },
        SearchNode::Or { left, right } => SearchNode::Or {
            left: Box::new(convert_and_to_or(*left)),
            right: Box::new(convert_and_to_or(*right)),
        },
        SearchNode::Not { expression } => SearchNode::Not {
            expression: Box::new(convert_and_to_or(*expression)),
        },
        other => other,
    }
}

/// Parses a search query under `config`.
pub fn parse_query_with_config(input: &str, config: &ParserConfig) -> (r: Option<SearchNode>)
    ensures
        opt_node_model(r) == query_tree(input@, config.field_types.view(), config.abbreviations.view()),
{
    let mut tokenizer = Tokenizer::new(input);
    let tokens = tokenizer.tokenize();
    let mut parser = Parser::with_config(tokens, config.clone());
    let ast = parser.parse();
    match ast {
        Some(node) => {
            if contains_and(&node) && is_pure_content_and_tree(&node) {
                Some(convert_and_to_or(node))
            } else {
                Some(node)
            }
        },
        None => None,
    }
}

/// Parses a search query under the built-in schema.
pub fn parse_query(input: &str) -> (r: Option<SearchNode>)
    ensures
        opt_node_model(r) == query_tree(
            input@,
            crate::config::cherrypic_field_types(),
            crate::config::cherrypic_abbreviations(),
        ),
{
    let config = ParserConfig::default();
    parse_query_with_config(input, &config)
}

} // verus!
