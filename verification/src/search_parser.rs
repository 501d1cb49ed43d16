//! The query parser's public items, gathered in one place.
pub use crate::config::ParserConfig;
pub use crate::filter::{process_filter, process_filter_with_config};
pub use crate::lexer::{Token, TokenType, Tokenizer};
pub use crate::node::{FilterValue, SearchNode};
pub use crate::parser::{Parser, parse_query, parse_query_with_config};
pub use crate::structured::{StructuredQuery, convert_to_structured};
