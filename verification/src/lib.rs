//! Extraction core for an anime-catalog aggregator site: parses raw markup
//! and JSON-wrapped fragments into typed, validated entities via selector
//! queries, and maps transport status codes to domain outcomes.
pub mod codec;
pub mod collect;
pub mod document;
pub mod dom;
pub mod entities;
pub mod errors;
pub mod extract;
pub mod laws;
pub mod scrape;
pub mod text;
