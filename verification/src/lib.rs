//! Normalisation and validation of search requests: the textual parameters of a
//! query are reconciled with the schema of an index and turned into the settings
//! that a search engine consumes.

pub mod crop;
pub mod facets;
pub mod highlight;
pub mod json;
pub mod names;
pub mod retrieve;
pub mod schema;
pub mod search;
pub mod text;
