//! Natural-language front end.

pub mod llm;

pub use llm::{ApiClient, LlmRequest, LlmResponse, NaturalLanguageParser, ParserView};
