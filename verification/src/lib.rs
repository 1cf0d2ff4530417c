//! A small document store core: a query language over JSON-like documents,
//! its evaluator, and the full-scan search that applies it to stored records.
//!
//! The engine that keeps the records is not part of this library. The caller
//! owns it, performs the reads and writes that the functions of [`store`]
//! ask for, and hands what it iterates to [`search`].

pub mod codec;
pub mod document;
pub mod error;
pub mod lexer;
pub mod number;
pub mod parser;
pub mod query;
pub mod search;
pub mod store;
pub mod text;

pub use crate::document::{get_value_from_doc, Document};
pub use crate::error::{DocError, ErrorKind};
pub use crate::lexer::{lex_string, ParseError};
pub use crate::parser::parse_query;
pub use crate::query::{EvaluationError, Operator, Query, QueryCondition};
pub use crate::search::{search_documents, FoundDocument, ScanEntry, SearchResult};
pub use crate::store::{add_document, get_document_by_id, EngineRead, WriteRequest};
