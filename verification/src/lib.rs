//! Core of a bookmark manager: the record model, the metadata-extraction
//! pipeline that turns a fetched HTML page into a record, the dynamic
//! query-predicate builder, and the output formatter.

pub mod extract;
pub mod format;
pub mod link;
pub mod query;
pub mod text;
pub mod web;
