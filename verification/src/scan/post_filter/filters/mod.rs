//! The individual filter stages.

pub mod depth;
pub mod exclude;
pub mod extension;
pub mod hidden_by_attr;
pub mod hidden_by_name;
pub mod max_results;
pub mod owner;
pub mod ignore_contain;
pub mod same_filesystem;
pub mod size;
pub mod symlink_filter;
pub mod time_filter;
pub mod type_filter;
pub mod prune;
