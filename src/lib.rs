//! Indexing and query logic for a personal EPUB library: stable book
//! identities, metadata normalisation, tag extraction, aggregate counts,
//! browse categories and the request handling of the catalogue server.
pub mod categories;
pub mod counts;
pub mod error;
pub mod identity;
pub mod index_doc;
pub mod ingest;
pub mod json;
pub mod numbers;
pub mod opds;
pub mod order;
pub mod search_result;
pub mod server;
pub mod tally;
pub mod text;
