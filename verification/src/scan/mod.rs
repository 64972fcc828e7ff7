//! Search core: backends, the post-filter pipeline and output projection.

pub mod backend;
pub mod dispatch;
pub mod legacy;
pub mod mock_injection;
pub mod path_projection;
pub mod pipeline_builder;
pub mod post_filter;
pub mod receiver;
pub mod sink_adapter;
