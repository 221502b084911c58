//! Conversion of comma-separated tables into JSON documents.
//!
//! The row mapping engine folds the rows of a table, given its header row and
//! an output configuration, into a JSON document: an array of flat objects,
//! or an object of flat objects keyed by each row's first field.

pub mod entries;
pub mod document;
pub mod args;
pub mod mapping;
pub mod render;
pub mod convert;
pub mod paths;
pub mod laws;
