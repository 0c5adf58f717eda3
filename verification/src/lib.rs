//! Elasticsearch-compatible log input and output components for uSIEM:
//! the bulk protocol, the batching of outgoing logs, and the replies and
//! descriptions the components give, as verified functions.
pub mod bulk;
pub mod component;
pub mod exchange;
pub mod json;
pub mod lines;
pub mod output;
pub mod replies;
pub mod text;
