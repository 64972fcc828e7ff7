//! The Everything index backend: query text, error codes, query
//! translation and backend selection.

pub mod ffi;
pub mod error;
pub mod backend;
pub mod query;
pub mod selection;
pub mod probe;
