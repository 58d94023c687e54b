//! The wire model: chat-completion requests and responses.
//!
//! Messages are polymorphic over their role; content is either plain text or
//! an opaque structured array; fields the model does not know about are kept
//! in `extra` maps so that a decode–encode cycle loses nothing.

use vstd::prelude::*;
use crate::json::{Json, JVal, json_view};

verus! {

/// Errors the library reports.
#[derive(Debug, PartialEq, Eq)]
pub enum ChatError {
    /// A role label outside the six known ones was given to a constructor.
    InvalidRole,
    /// A JSON value does not have the shape the schema asks of it.
    SchemaViolation,
    /// The provider answered with a status outside the success range; the
    /// raw response body is carried as diagnostic text.
    Api(String),
    /// The provider accepted the call but its body does not match the
    /// response schema.
    Deserialization,
}

/// Message content: plain text, or a structured sequence kept verbatim.
#[derive(Debug, PartialEq)]
pub enum Content {
    Text(String),
    Parts(Vec<Json>),
}

/// Spec-level content.
#[verifier::ext_equal]
pub enum ContentV {
    Text(Seq<char>),
    Parts(Seq<JVal>),
}

pub open spec fn content_view(c: Content) -> ContentV {
    match c {
        Content::Text(s) => ContentV::Text(s@),
        Content::Parts(v) => ContentV::Parts(Seq::new(v@.len(), |i: int| json_view(v@[i]))),
    }
}

impl View for Content {
    type V = ContentV;

    open spec fn view(&self) -> ContentV {
        content_view(*self)
    }
}

/// A chat message, shaped by its role.
#[derive(Debug, PartialEq)]
pub enum Message {
    Developer { content: Content, name: Option<String> },
    System { content: Content, name: Option<String> },
    User { content: Content, name: Option<String> },
    Assistant { content: Option<Content>, name: Option<String>, extra: Vec<(String, Json)> },
    Tool { content: Content, tool_call: String },
    Function { content: Content, name: String },
}

/// Spec-level message.
#[verifier::ext_equal]
pub enum MessageV {
    Developer { content: ContentV, name: Option<Seq<char>> },
    System { content: ContentV, name: Option<Seq<char>> },
    User { content: ContentV, name: Option<Seq<char>> },
    Assistant {
        content: Option<ContentV>,
        name: Option<Seq<char>>,
        extra: Seq<(Seq<char>, JVal)>,
    },
    Tool { content: ContentV, tool_call: Seq<char> },
    Function { content: ContentV, name: Seq<char> },
}

pub open spec fn opt_str_view(o: Option<String>) -> Option<Seq<char>> {
    match o {
        Some(s) => Some(s@),
        None => None,
    }
}

pub open spec fn message_view(m: Message) -> MessageV {
    match m {
        Message::Developer { content, name } => MessageV::Developer {
            content: content_view(content),
            name: opt_str_view(name),
        },
        Message::System { content, name } => MessageV::System {
            content: content_view(content),
            name: opt_str_view(name),
        },
        Message::User { content, name } => MessageV::User {
            content: content_view(content),
            name: opt_str_view(name),
        },
        Message::Assistant { content, name, extra } => MessageV::Assistant {
            content: match content {
                Some(c) => Some(content_view(c)),
                None => None,
            },
            name: opt_str_view(name),
            extra: crate::json::pairs_view(extra@),
        },
        Message::Tool { content, tool_call } => MessageV::Tool {
            content: content_view(content),
            tool_call: tool_call@,
        },
        Message::Function { content, name } => MessageV::Function {
            content: content_view(content),
            name: name@,
        },
    }
}

impl View for Message {
    type V = MessageV;

    open spec fn view(&self) -> MessageV {
        message_view(*self)
    }
}

/// A chat-completion request.
#[derive(Debug, PartialEq)]
pub struct OpenAIChatCompletionRequest {
    pub messages: Vec<Message>,
    pub model: String,
    pub max_tokens: Option<i32>,
    pub max_completion_tokens: Option<i32>,
    pub stream: Option<bool>,
    pub user: Option<String>,
    /// Top-level fields this model does not know about; empty means none.
    pub extra: Vec<(String, Json)>,
}

/// Spec-level request.
#[verifier::ext_equal]
pub struct RequestV {
    pub messages: Seq<MessageV>,
    pub model: Seq<char>,
    pub max_tokens: Option<int>,
    pub max_completion_tokens: Option<int>,
    pub stream: Option<bool>,
    pub user: Option<Seq<char>>,
    pub extra: Seq<(Seq<char>, JVal)>,
}

pub open spec fn opt_int_view(o: Option<i32>) -> Option<int> {
    match o {
        Some(i) => Some(i as int),
        None => None,
    }
}

/// The spec messages a message vector denotes.
pub open spec fn messages_view(ms: Seq<Message>) -> Seq<MessageV> {
    Seq::new(ms.len(), |i: int| message_view(ms[i]))
}

impl View for OpenAIChatCompletionRequest {
    type V = RequestV;

    open spec fn view(&self) -> RequestV {
        RequestV {
            messages: messages_view(self.messages@),
            model: self.model@,
            max_tokens: opt_int_view(self.max_tokens),
            max_completion_tokens: opt_int_view(self.max_completion_tokens),
            stream: self.stream,
            user: opt_str_view(self.user),
            extra: crate::json::pairs_view(self.extra@),
        }
    }
}

/// Token accounting returned with a completion. The two detail fields are
/// vendor data kept verbatim.
#[derive(Debug, PartialEq)]
pub struct Usage {
    pub completion_tokens: i32,
    pub prompt_tokens: i32,
    pub total_tokens: i32,
    pub completion_tokens_details: Json,
    pub prompt_tokens_details: Json,
}

/// Spec-level usage.
#[verifier::ext_equal]
pub struct UsageV {
    pub completion_tokens: int,
    pub prompt_tokens: int,
    pub total_tokens: int,
    pub completion_tokens_details: JVal,
    pub prompt_tokens_details: JVal,
}

impl View for Usage {
    type V = UsageV;

    open spec fn view(&self) -> UsageV {
        UsageV {
            completion_tokens: self.completion_tokens as int,
            prompt_tokens: self.prompt_tokens as int,
            total_tokens: self.total_tokens as int,
            completion_tokens_details: json_view(self.completion_tokens_details),
            prompt_tokens_details: json_view(self.prompt_tokens_details),
        }
    }
}

/// One returned completion.
#[derive(Debug, PartialEq)]
pub struct Choice {
    pub index: i32,
    pub message: Message,
    pub finish_reason: String,
    pub logprobs: Option<Json>,
}

/// Spec-level choice.
#[verifier::ext_equal]
pub struct ChoiceV {
    pub index: int,
    pub message: MessageV,
    pub finish_reason: Seq<char>,
    pub logprobs: Option<JVal>,
}

impl View for Choice {
    type V = ChoiceV;

    open spec fn view(&self) -> ChoiceV {
        ChoiceV {
            index: self.index as int,
            message: message_view(self.message),
            finish_reason: self.finish_reason@,
            logprobs: match self.logprobs {
                Some(j) => Some(json_view(j)),
                None => None,
            },
        }
    }
}

/// A chat-completion response.
#[derive(Debug, PartialEq)]
pub struct OpenAIChatCompletionResponse {
    pub id: String,
    pub choices: Vec<Choice>,
    pub created: i64,
    pub model: String,
    pub service_tier: Option<String>,
    pub system_fingerprint: String,
    pub object: String,
    pub usage: Usage,
}

/// Spec-level response.
#[verifier::ext_equal]
pub struct ResponseV {
    pub id: Seq<char>,
    pub choices: Seq<ChoiceV>,
    pub created: int,
    pub model: Seq<char>,
    pub service_tier: Option<Seq<char>>,
    pub system_fingerprint: Seq<char>,
    pub object: Seq<char>,
    pub usage: UsageV,
}

/// The spec choices a choice vector denotes.
pub open spec fn choices_view(cs: Seq<Choice>) -> Seq<ChoiceV> {
    Seq::new(cs.len(), |i: int| cs[i]@)
}

impl View for OpenAIChatCompletionResponse {
    type V = ResponseV;

    open spec fn view(&self) -> ResponseV {
        ResponseV {
            id: self.id@,
            choices: choices_view(self.choices@),
            created: self.created as int,
            model: self.model@,
            service_tier: opt_str_view(self.service_tier),
            system_fingerprint: self.system_fingerprint@,
            object: self.object@,
            usage: self.usage@,
        }
    }
}

/// The plain-text message a role label and a text build, if the label is one
/// of the six known roles. A `tool` message gets an empty call id and a
/// `function` message an empty function name: the plain-text constructor has
/// nothing else to put there.
pub open spec fn msg_of_role(role: Seq<char>, text: Seq<char>) -> Option<MessageV> {
    if role == "user"@ {
        Some(MessageV::User { content: ContentV::Text(text), name: None })
    } else if role == "system"@ {
        Some(MessageV::System { content: ContentV::Text(text), name: None })
    } else if role == "assistant"@ {
        Some(
            MessageV::Assistant {
                content: Some(ContentV::Text(text)),
                name: None,
                extra: Seq::empty(),
            },
        )
    } else if role == "developer"@ {
        Some(MessageV::Developer { content: ContentV::Text(text), name: None })
    } else if role == "tool"@ {
        Some(MessageV::Tool { content: ContentV::Text(text), tool_call: Seq::empty() })
    } else if role == "function"@ {
        Some(MessageV::Function { content: ContentV::Text(text), name: Seq::empty() })
    } else {
        None
    }
}

impl Message {
    /// A plain-text message for one of the six role labels; any other label
    /// is an invalid-role error.
    pub fn new(role: &str, content: &str) -> (r: Result<Message, ChatError>)
        ensures
            match msg_of_role(role@, content@) {
                Some(m) => r matches Ok(msg) && msg@ == m,
                None => r matches Err(e) && e == ChatError::InvalidRole,
            },
    {
        let role_s = role.to_owned();
        if role_s == "user".to_owned() {
            Ok(Message::User { content: Content::Text(content.to_owned()), name: None })
        } else if role_s == "system".to_owned() {
            Ok(Message::System { content: Content::Text(content.to_owned()), name: None })
        } else if role_s == "assistant".to_owned() {
            Ok(
                Message::Assistant {
                    content: Some(Content::Text(content.to_owned())),
                    name: None,
                    extra: Vec::new(),
                },
            )
        } else if role_s == "developer".to_owned() {
            Ok(Message::Developer { content: Content::Text(content.to_owned()), name: None })
        } else if role_s == "tool".to_owned() {
            Ok(Message::Tool { content: Content::Text(content.to_owned()), tool_call: String::new() })
        } else if role_s == "function".to_owned() {
            Ok(Message::Function { content: Content::Text(content.to_owned()), name: String::new() })
        } else {
            Err(ChatError::InvalidRole)
        }
    }

    /// The message's content, absent only on an assistant message that
    /// carries none.
    pub fn content(&self) -> (r: Option<&Content>)
        ensures
            match r {
                Some(c) => match self@ {
                    MessageV::Assistant { content, .. } => content == Some(c@),
                    MessageV::Developer { content, .. } => content == c@,
                    MessageV::System { content, .. } => content == c@,
                    MessageV::User { content, .. } => content == c@,
                    MessageV::Tool { content, .. } => content == c@,
                    MessageV::Function { content, .. } => content == c@,
                },
                None => self@ matches MessageV::Assistant { content: None, .. },
            },
    {
        match self {
            Message::Assistant { content, .. } => content.as_ref(),
            Message::User { content, .. } => Some(content),
            Message::System { content, .. } => Some(content),
            Message::Developer { content, .. } => Some(content),
            Message::Tool { content, .. } => Some(content),
            Message::Function { content, .. } => Some(content),
        }
    }

    /// The plain text of the message's content. `None` marks the two shapes
    /// that carry no plain text: an assistant message without content, and
    /// structured-array content.
    pub fn content_text(&self) -> (r: Option<String>)
        ensures
            match self.spec_content() {
                Some(ContentV::Text(t)) => r matches Some(s) && s@ == t,
                _ => r is None,
            },
    {
        match self.content() {
            None => None,
            Some(Content::Text(t)) => Some(t.clone()),
            Some(Content::Parts(_)) => None,
        }
    }

    /// The content the message's view carries.
    pub open spec fn spec_content(&self) -> Option<ContentV> {
        match self@ {
            MessageV::Assistant { content, .. } => content,
            MessageV::Developer { content, .. } => Some(content),
            MessageV::System { content, .. } => Some(content),
            MessageV::User { content, .. } => Some(content),
            MessageV::Tool { content, .. } => Some(content),
            MessageV::Function { content, .. } => Some(content),
        }
    }
}

impl Default for OpenAIChatCompletionRequest {
    /// An empty request for the default model.
    fn default() -> (r: Self)
        ensures
            r@ =~= (RequestV {
                messages: Seq::empty(),
                model: "gpt-4o-mini"@,
                max_tokens: None,
                max_completion_tokens: None,
                stream: None,
                user: None,
                extra: Seq::empty(),
            }),
    {
        OpenAIChatCompletionRequest {
            messages: Vec::new(),
            model: "gpt-4o-mini".to_owned(),
            max_tokens: None,
            max_completion_tokens: None,
            stream: None,
            user: None,
            extra: Vec::new(),
        }
    }
}

impl OpenAIChatCompletionRequest {
    /// An empty request for the given model.
    pub fn new(model: &str) -> (r: Self)
        ensures
            r@ =~= (RequestV {
                messages: Seq::empty(),
                model: model@,
                max_tokens: None,
                max_completion_tokens: None,
                stream: None,
                user: None,
                extra: Seq::empty(),
            }),
    {
        OpenAIChatCompletionRequest {
            messages: Vec::new(),
            model: model.to_owned(),
            max_tokens: None,
            max_completion_tokens: None,
            stream: None,
            user: None,
            extra: Vec::new(),
        }
    }

    /// Appends a plain-text message built from a role label, or reports an
    /// invalid-role error and hands the request back unchanged.
    pub fn with_message(self, role: &str, content: &str) -> (r: Result<Self, (Self, ChatError)>)
        ensures
            match msg_of_role(role@, content@) {
                Some(m) => r matches Ok(req) && req@ =~= (RequestV {
                    messages: self@.messages.push(m),
                    ..self@
                }),
                None => r matches Err(p) && p.0 == self && p.1 == ChatError::InvalidRole,
            },
    {
        match Message::new(role, content) {
            Ok(m) => {
                let mut req = self;
                req.messages.push(m);
                proof {
                    assert(req@.messages =~= self@.messages.push(m@));
                }
                Ok(req)
            },
            Err(e) => Err((self, e)),
        }
    }
}

} // verus!
