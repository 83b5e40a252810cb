//! Summaries of long documents, window by window.
//!
//! A document's text is turned into tokens, the tokens are cut into windows of
//! bounded size, and each window is put to a chat model together with a little
//! of its neighbours. The answers, joined in window order, are the summary.
//!
//! The crate decides what is asked and what becomes of each answer; sending a
//! request and waiting for its answer is left to the caller.

pub mod chunk;
pub mod client;
pub mod error;
pub mod laws;
pub mod prompt;
pub mod summary;
pub mod tokenizer;

pub use crate::client::{OpenAIClient, OpenAIClientBuilder, PdfClient, PdfReader};
pub use crate::error::{ConfigError, ConfigView, ErrorView, SummaryError};
