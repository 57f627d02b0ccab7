//! Retrieval-augmented generation: the verified core of a pipeline that
//! embeds a query, searches a vector index, splices what it found into a
//! reprompt template and streams a completion back, and of the ingestion
//! path that loads title/description rows into the same index.
pub mod text;
pub mod point;
pub mod store;
pub mod pipeline;
pub mod ingest;
pub mod config;
