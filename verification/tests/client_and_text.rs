use kubellm::json::Json;
use kubellm::wire::{ChatError, Content, Message};
use kubellm::codec::{decode_response, encode_response};
use kubellm::parse::parse_text;
use kubellm::client::OpenAIClient;
use kubellm::OpenAIChatCompletionRequest;

fn s(x: &str) -> String {
    x.to_owned()
}

/// The response fixture, in the order the encoder emits fields.
fn response_fixture() -> Json {
    Json::Obj(vec![
        (s("id"), Json::Str(s("chatcmpl-123456"))),
        (
            s("choices"),
            Json::Arr(vec![Json::Obj(vec![
                (s("index"), Json::Int(0)),
                (
                    s("message"),
                    Json::Obj(vec![
                        (s("role"), Json::Str(s("assistant"))),
                        (s("content"), Json::Str(s("Hi there! How can I assist you today?"))),
                        (s("refusal"), Json::Null),
                    ]),
                ),
                (s("finish_reason"), Json::Str(s("stop"))),
                (s("logprobs"), Json::Null),
            ])]),
        ),
        (s("created"), Json::Int(1728933352)),
        (s("model"), Json::Str(s("gpt-4o-2024-08-06"))),
        (s("system_fingerprint"), Json::Str(s("fp_6b68a8204b"))),
        (s("object"), Json::Str(s("chat.completion"))),
        (
            s("usage"),
            Json::Obj(vec![
                (s("completion_tokens"), Json::Int(10)),
                (s("prompt_tokens"), Json::Int(19)),
                (s("total_tokens"), Json::Int(29)),
                (
                    s("completion_tokens_details"),
                    Json::Obj(vec![
                        (s("reasoning_tokens"), Json::Int(0)),
                        (s("accepted_prediction_tokens"), Json::Int(0)),
                        (s("rejected_prediction_tokens"), Json::Int(0)),
                    ]),
                ),
                (
                    s("prompt_tokens_details"),
                    Json::Obj(vec![(s("cached_tokens"), Json::Int(0))]),
                ),
            ]),
        ),
    ])
}

#[test]
fn test_parse_chat_completion_response() {
    let response_json = response_fixture();

    let response = decode_response(&response_json).expect("Failed to parse ChatCompletionResponse");

    assert_eq!(response.id, s("chatcmpl-123456"));
    assert_eq!(response.model, s("gpt-4o-2024-08-06"));
    assert_eq!(response.created, 1728933352);
    assert_eq!(response.system_fingerprint, s("fp_6b68a8204b"));
    assert_eq!(response.object, s("chat.completion"));

    let choice = &response.choices[0];
    assert_eq!(choice.index, 0);
    assert_eq!(choice.finish_reason, s("stop"));
    assert_eq!(choice.logprobs, None);

    if let Message::Assistant { content, extra, .. } = &choice.message {
        assert_eq!(
            content.as_ref().unwrap(),
            &Content::Text(s("Hi there! How can I assist you today?"))
        );
        assert_eq!(extra[0], (s("refusal"), Json::Null));
    } else {
        panic!("Expected Assistant message");
    }

    assert_eq!(response.usage.prompt_tokens, 19);
    assert_eq!(response.usage.completion_tokens, 10);
    assert_eq!(response.usage.total_tokens, 29);
    assert_eq!(
        response.usage.total_tokens,
        response.usage.prompt_tokens + response.usage.completion_tokens
    );
    assert_eq!(
        response.choices[0].message.content_text(),
        Some(s("Hi there! How can I assist you today?"))
    );

    let serialized = encode_response(response);
    assert_eq!(response_fixture(), serialized);
}

#[test]
fn test_interpret_response_success() {
    let body = response_fixture().to_text();
    let response = OpenAIClient::interpret_response(200, body).expect("a 2xx body should decode");
    assert_eq!(response.usage.total_tokens, 29);
    assert_eq!(
        response.choices[0].message.content_text(),
        Some(s("Hi there! How can I assist you today?"))
    );
}

#[test]
fn test_interpret_response_api_error() {
    let result = OpenAIClient::interpret_response(401, s("{\"error\":\"invalid key\"}"));
    match result {
        Err(ChatError::Api(body)) => {
            assert!(body.contains("invalid key"));
            assert_eq!(body, s("{\"error\":\"invalid key\"}"));
        }
        _ => panic!("a 401 must be an API error carrying the raw body"),
    }
}

#[test]
fn test_interpret_response_deserialization_error() {
    assert_eq!(
        OpenAIClient::interpret_response(200, s("{\"id\":\"x\"}")),
        Err(ChatError::Deserialization)
    );
    assert_eq!(
        OpenAIClient::interpret_response(200, s("not json at all")),
        Err(ChatError::Deserialization)
    );
}

#[test]
fn test_auth_header_and_endpoint() {
    let client = OpenAIClient::new(s("sk-123"));
    assert_eq!(client.auth_header(), s("Bearer sk-123"));
    assert_eq!(client.endpoint(), "https://api.openai.com/v1/chat/completions");
}

#[test]
fn test_request_body_text() {
    let client = OpenAIClient::new(s("sk-123"));
    let request = OpenAIChatCompletionRequest::new("gpt-4o")
        .with_message("user", "Hello!")
        .unwrap();
    let body = client.request_body(request);
    assert_eq!(
        body,
        s("{\"messages\":[{\"role\":\"user\",\"content\":\"Hello!\"}],\"model\":\"gpt-4o\"}")
    );
}

#[test]
fn test_to_text_escapes_and_numbers() {
    let j = Json::Obj(vec![
        (s("a"), Json::Str(s("he said \"hi\"\n"))),
        (s("b"), Json::Int(-42)),
        (s("c"), Json::Arr(vec![Json::Bool(true), Json::Null, Json::Int(0)])),
    ]);
    assert_eq!(
        j.to_text(),
        s("{\"a\":\"he said \\\"hi\\\"\\n\",\"b\":-42,\"c\":[true,null,0]}")
    );
}

#[test]
fn test_parse_text_round_trip() {
    // serde_json keeps object fields sorted by key, so a fixture with sorted
    // keys comes back exactly.
    let j = Json::Obj(vec![
        (s("a"), Json::Str(s("x\ty"))),
        (s("b"), Json::Arr(vec![Json::Int(1), Json::Int(-2)])),
        (s("c"), Json::Obj(vec![])),
    ]);
    let text = j.to_text();
    assert_eq!(parse_text(&text), Some(j));
}

#[test]
fn test_parse_text_reads_input() {
    assert_eq!(
        parse_text("{\"b\":1,\"a\":2}"),
        Some(Json::Obj(vec![(s("a"), Json::Int(2)), (s("b"), Json::Int(1))]))
    );
    assert_eq!(parse_text("[1, \"two\", false]"),
        Some(Json::Arr(vec![Json::Int(1), Json::Str(s("two")), Json::Bool(false)])));
    assert_eq!(parse_text("{"), None);
    assert_eq!(parse_text("}{"), None);
}

#[test]
fn test_parse_text_keeps_other_numbers() {
    assert_eq!(parse_text("1.5"), Some(Json::Num(s("1.5"))));
    assert_eq!(
        parse_text("18446744073709551615"),
        Some(Json::Num(s("18446744073709551615")))
    );
    assert_eq!(Json::Num(s("1.5")).to_text(), s("1.5"));
    let j = parse_text("{\"temperature\":0.7}").expect("a float field is valid JSON");
    assert_eq!(j, Json::Obj(vec![(s("temperature"), Json::Num(s("0.7")))]));
    assert_eq!(parse_text(&j.to_text()), Some(j));
}

#[test]
fn test_interpret_response_keeps_float_details() {
    let body = s("{\"id\":\"r1\",\"choices\":[],\"created\":1,\"model\":\"m\",\
\"system_fingerprint\":\"fp\",\"object\":\"chat.completion\",\"usage\":\
{\"completion_tokens\":1,\"prompt_tokens\":2,\"total_tokens\":3,\
\"completion_tokens_details\":{\"ratio\":0.5},\"prompt_tokens_details\":null}}");
    let response = OpenAIClient::interpret_response(200, body).expect("floats pass through");
    assert_eq!(
        response.usage.completion_tokens_details,
        Json::Obj(vec![(s("ratio"), Json::Num(s("0.5")))])
    );
}

#[test]
fn test_to_text_integer_extremes() {
    assert_eq!(Json::Int(i64::MIN).to_text(), s("-9223372036854775808"));
    assert_eq!(Json::Int(i64::MAX).to_text(), s("9223372036854775807"));
    assert_eq!(Json::Int(0).to_text(), s("0"));
}

#[test]
fn test_duplicate_key_first_occurrence_wins() {
    let j = Json::Obj(vec![
        (s("messages"), Json::Arr(vec![])),
        (s("model"), Json::Str(s("first"))),
        (s("model"), Json::Str(s("second"))),
    ]);
    let request = kubellm::codec::decode_request(&j).expect("duplicate keys are tolerated");
    assert_eq!(request.model, s("first"));
}
