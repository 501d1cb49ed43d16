//! Lucille: a Lucene-like search query parser.
//!
//! A query such as `domain:google.com isFavorite:true` is split into tokens,
//! parsed into a tree of `AND`, `OR`, `NOT` and filter nodes, and flattened
//! into groups of filters. Each filter is shaped by the type its field has in
//! the schema (`ParserConfig`). Text values are normalised into full-text
//! index tokens.
pub mod config;
pub mod filter;
pub mod laws;
pub mod lexer;
pub mod lookahead;
pub mod node;
pub mod number;
pub mod parser;
pub mod pattern;
pub mod search_parser;
pub mod structured;
pub mod text;
pub mod tokenizer;

pub use config::ParserConfig;
pub use filter::{process_filter, process_filter_with_config};
pub use lexer::{Token, TokenType, Tokenizer};
pub use node::{FilterValue, SearchNode};
pub use parser::{Parser, parse_query, parse_query_with_config};
pub use structured::{StructuredQuery, convert_to_structured};
pub use tokenizer::{NoteNode, extract_note_text, hybrid_tokenize, normalize_for_search};
