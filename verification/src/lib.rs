//! A typed wire model for a chat-completion JSON protocol, together with the
//! decision logic of a minimal HTTP client for it.
//!
//! The wire model maps chat requests and responses to and from a JSON tree,
//! preserving fields the model does not know about, and the codecs are proved
//! to round-trip. The HTTP transport itself lives outside this library; the
//! client here prepares the call and interprets its outcome.

pub mod json;
pub mod wire;
pub mod codec;
pub mod laws;
pub mod text;
pub mod parse;
pub mod client;

pub use json::Json;
pub use wire::{
    ChatError, Content, Message, OpenAIChatCompletionRequest, OpenAIChatCompletionResponse,
    Choice, Usage,
};
pub use client::OpenAIClient;
