//! An edge reverse proxy: every inbound request is rewritten to a fixed
//! upstream host, its method and headers are translated for the outbound
//! client, and the upstream response is relayed back chunk by chunk.
pub mod error;
pub mod headers;
pub mod method;
pub mod pipeline;
pub mod relay;
pub mod rewrite;
