//! Filter compilation and pipeline ordering for a document-to-vector search
//! store: metadata filters compile to parameterized SQL predicates, search
//! requests build into one statement, and each collection's stages (documents,
//! chunks, embeddings, text search vectors) are gated on their prerequisites.
pub mod filter;
pub mod literal;
pub mod logging;
pub mod pipeline;
pub mod query;
pub mod sql;
