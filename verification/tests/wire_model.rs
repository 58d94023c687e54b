use kubellm::json::Json;
use kubellm::wire::{ChatError, Content, Message, OpenAIChatCompletionRequest};
use kubellm::codec::{decode_content, decode_message, decode_request, encode_message, encode_request};

fn s(x: &str) -> String {
    x.to_owned()
}

/// The request fixture, in the order the encoder emits fields.
fn request_fixture() -> Json {
    Json::Obj(vec![
        (
            s("messages"),
            Json::Arr(vec![
                Json::Obj(vec![
                    (s("role"), Json::Str(s("developer"))),
                    (s("content"), Json::Str(s("You are a helpful assistant."))),
                ]),
                Json::Obj(vec![
                    (s("role"), Json::Str(s("user"))),
                    (s("content"), Json::Str(s("Hello!"))),
                ]),
            ]),
        ),
        (s("model"), Json::Str(s("gpt-4o"))),
    ])
}

#[test]
fn test_parse_chat_completion_request() {
    let request_json = request_fixture();

    let request = decode_request(&request_json).expect("Failed to parse ChatCompletionRequest");

    assert_eq!(request.model, s("gpt-4o"));
    assert_eq!(request.messages.len(), 2);

    match &request.messages[0] {
        Message::Developer { content, .. } => {
            assert_eq!(content, &Content::Text(s("You are a helpful assistant.")));
        }
        _ => panic!("Expected Developer message"),
    }

    match &request.messages[1] {
        Message::User { content, .. } => {
            assert_eq!(content, &Content::Text(s("Hello!")));
        }
        _ => panic!("Expected User message"),
    }

    let serialized = encode_request(request);
    assert_eq!(request_fixture(), serialized);
}

#[test]
fn test_request_round_trip_all_fields() {
    let fixture = Json::Obj(vec![
        (s("messages"), Json::Arr(vec![Json::Obj(vec![
            (s("role"), Json::Str(s("user"))),
            (s("content"), Json::Str(s("hi"))),
        ])])),
        (s("model"), Json::Str(s("gpt-4o-mini"))),
        (s("max_tokens"), Json::Int(128)),
        (s("max_completion_tokens"), Json::Int(64)),
        (s("stream"), Json::Bool(false)),
        (s("user"), Json::Str(s("someone"))),
        (s("seed"), Json::Int(7)),
        (s("temperature"), Json::Num(s("0.7"))),
    ]);
    let request = decode_request(&fixture).expect("fixture should decode");
    assert_eq!(request.max_tokens, Some(128));
    assert_eq!(request.max_completion_tokens, Some(64));
    assert_eq!(request.stream, Some(false));
    assert_eq!(request.user, Some(s("someone")));
    assert_eq!(
        request.extra,
        vec![(s("seed"), Json::Int(7)), (s("temperature"), Json::Num(s("0.7")))]
    );
    let back = encode_request(request);
    assert_eq!(fixture, back);
}

#[test]
fn test_request_rejects_out_of_range_max_tokens() {
    let fixture = Json::Obj(vec![
        (s("messages"), Json::Arr(vec![])),
        (s("model"), Json::Str(s("gpt-4o"))),
        (s("max_tokens"), Json::Int(3_000_000_000)),
    ]);
    assert_eq!(decode_request(&fixture), Err(ChatError::SchemaViolation));
}

#[test]
fn test_content_discrimination() {
    let text = decode_content(&Json::Str(s("hello"))).expect("a string is the text form");
    assert_eq!(text, Content::Text(s("hello")));

    let parts = decode_content(&Json::Arr(vec![Json::Str(s("a")), Json::Str(s("b"))]))
        .expect("an array is the structured form");
    assert_eq!(parts, Content::Parts(vec![Json::Str(s("a")), Json::Str(s("b"))]));

    assert_eq!(decode_content(&Json::Int(42)), Err(ChatError::SchemaViolation));
}

#[test]
fn test_with_message_all_roles() {
    for role in ["developer", "system", "user", "assistant", "tool", "function"] {
        let request = OpenAIChatCompletionRequest::new("gpt-4o")
            .with_message(role, "hi")
            .expect("all six role labels are accepted");
        assert_eq!(request.messages.len(), 1);
        let encoded = encode_message(request.messages.into_iter().next().unwrap());
        assert_eq!(encoded.get("role"), Some(&Json::Str(s(role))));
        assert_eq!(encoded.get("content"), Some(&Json::Str(s("hi"))));
    }
}

#[test]
fn test_with_message_invalid_role() {
    let (_, err) = OpenAIChatCompletionRequest::new("gpt-4o")
        .with_message("narrator", "hi")
        .unwrap_err();
    assert_eq!(err, ChatError::InvalidRole);
}

#[test]
fn test_message_new_invalid_role() {
    assert_eq!(Message::new("wizard", "hi"), Err(ChatError::InvalidRole));
}

#[test]
fn test_assistant_unknown_key_preserved() {
    let fixture = Json::Obj(vec![
        (s("role"), Json::Str(s("assistant"))),
        (s("content"), Json::Str(s("Hello."))),
        (s("refusal"), Json::Null),
    ]);
    let message = decode_message(&fixture).expect("assistant fixture should decode");
    match &message {
        Message::Assistant { extra, .. } => {
            assert_eq!(extra, &vec![(s("refusal"), Json::Null)]);
        }
        _ => panic!("Expected Assistant message"),
    }
    let back = encode_message(message);
    assert_eq!(back.get("refusal"), Some(&Json::Null));
    assert_eq!(fixture, back);
}

#[test]
fn test_builder_defaults() {
    let request = OpenAIChatCompletionRequest::new("gpt-4o");
    assert_eq!(request.model, s("gpt-4o"));
    assert!(request.messages.is_empty());
    assert_eq!(request.max_tokens, None);
    assert_eq!(request.stream, None);
    let default = OpenAIChatCompletionRequest::default();
    assert_eq!(default.model, s("gpt-4o-mini"));
}

#[test]
fn test_content_text_forms() {
    let plain = Message::new("user", "hi").unwrap();
    assert_eq!(plain.content_text(), Some(s("hi")));

    let no_content = Message::Assistant { content: None, name: None, extra: vec![] };
    assert_eq!(no_content.content_text(), None);
    assert!(no_content.content().is_none());

    let structured = Message::User {
        content: Content::Parts(vec![Json::Str(s("a"))]),
        name: None,
    };
    assert_eq!(structured.content_text(), None);
}
