//! `fde`: the search core of an `fd`-compatible finder that answers queries
//! from a volume index instead of walking the file system.

pub mod text;
pub mod winpath;
pub mod scan;
pub mod filter;
pub mod filetypes;
pub mod bench_support;
