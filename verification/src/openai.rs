//! OpenAI-compatible chat completions: wire types, request/response conversion,
//! server-sent-event stream assembly, and error classification.

pub mod accumulate;
pub mod endpoint;
pub mod errors;
pub mod parser;
pub mod request;
pub mod stream;
pub mod types;
