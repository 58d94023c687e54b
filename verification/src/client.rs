//! The decision logic of the chat-completion client.
//!
//! The client holds the API key and prepares one call: the endpoint, the
//! authorization header, the serialized body. Once the transport — which
//! lives outside the library — has answered, `interpret_response` turns the
//! status and body into a typed response or an error: a status outside the
//! success range is an API error carrying the raw body; a success body that
//! parses and decodes is returned exactly, and one that does not is a
//! deserialization error.

use vstd::prelude::*;
use vstd::string::StringExecFns;
use crate::wire::{ChatError, OpenAIChatCompletionRequest, OpenAIChatCompletionResponse};
use crate::codec::{enc_request, dec_response, encode_request, decode_response};
use crate::text::jval_text;
use crate::parse::{parse_text, text_json};

verus! {

/// A chat-completion client: an API key, read-only after construction.
pub struct OpenAIClient {
    api_key: String,
}

impl View for OpenAIClient {
    type V = Seq<char>;

    closed spec fn view(&self) -> Seq<char> {
        self.api_key@
    }
}

impl OpenAIClient {
    /// A client for the given API key.
    pub fn new(api_key: String) -> (r: Self)
        ensures
            r@ == api_key@,
    {
        OpenAIClient { api_key }
    }

    /// The fixed chat-completions endpoint.
    pub fn endpoint(&self) -> (r: &'static str)
        ensures
            r@ == "https://api.openai.com/v1/chat/completions"@,
    {
        "https://api.openai.com/v1/chat/completions"
    }

    /// The bearer authorization header value built from the key.
    pub fn auth_header(&self) -> (r: String)
        ensures
            r@ == "Bearer "@ + self@,
    {
        let s = "Bearer ".to_owned();
        s.concat(self.api_key.as_str())
    }

    /// The serialized body of a request: the wire text of its encoding.
    pub fn request_body(&self, request: OpenAIChatCompletionRequest) -> (r: String)
        ensures
            r@ == jval_text(enc_request(request@)),
    {
        let j = encode_request(request);
        j.to_text()
    }

    /// Interprets the transport's answer to one chat call.
    pub fn interpret_response(status: u16, body: String) -> (r: Result<
        OpenAIChatCompletionResponse,
        ChatError,
    >)
        ensures
            !(200 <= status < 300) ==> r == Err::<OpenAIChatCompletionResponse, ChatError>(
                ChatError::Api(body),
            ),
            200 <= status < 300 ==> match text_json(body@) {
                Some(t) => match dec_response(t) {
                    Some(rv) => r matches Ok(resp) && resp@ == rv,
                    None => r == Err::<OpenAIChatCompletionResponse, ChatError>(
                        ChatError::Deserialization,
                    ),
                },
                None => r == Err::<OpenAIChatCompletionResponse, ChatError>(
                    ChatError::Deserialization,
                ),
            },
    {
        if !(200 <= status && status < 300) {
            return Err(ChatError::Api(body));
        }
        match parse_text(body.as_str()) {
            None => Err(ChatError::Deserialization),
            Some(j) => match decode_response(&j) {
                Ok(resp) => Ok(resp),
                Err(_) => Err(ChatError::Deserialization),
            },
        }
    }
}

} // verus!
