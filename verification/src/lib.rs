//! Verified core of the kernel-review tool suite: dashboard aggregation,
//! repository monitoring decisions, and OpenAI-compatible stream handling.

pub mod cleanup;
pub mod dashboard;
pub mod logging;
pub mod monitor;
pub mod numbers;
pub mod openai;
pub mod order;
pub mod settings;
pub mod sums;
pub mod text;
