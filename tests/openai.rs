use sambanova::json::Json;
use sambanova::message::{Message, MessageContent, ModelConfig, ProviderError, Role, Tool, Usage};
use sambanova::openai::{
    complete_from_response, create_request, decode_completion, get_model, get_usage,
    handle_response, response_to_message,
};

fn s(t: &str) -> Json {
    Json::Str(t.to_string())
}

fn obj(fields: Vec<(&str, Json)>) -> Json {
    Json::Obj(fields.into_iter().map(|(k, v)| (k.to_string(), v)).collect())
}

fn reply_body(with_usage: bool) -> Json {
    let message = obj(vec![("role", s("assistant")), ("content", s("こんにちは"))]);
    let choice = obj(vec![("index", Json::Int(0)), ("message", message)]);
    let mut fields = vec![("model", s("Meta-Llama-3.1-405B-Instruct")), ("choices", Json::Arr(vec![choice]))];
    if with_usage {
        fields.push((
            "usage",
            obj(vec![
                ("prompt_tokens", Json::Int(12)),
                ("completion_tokens", Json::Int(5)),
                ("total_tokens", Json::Int(17)),
            ]),
        ));
    }
    obj(fields)
}

fn text_of(j: Option<&Json>) -> Option<String> {
    j.and_then(|v| v.as_str()).cloned()
}

#[test]
fn test_sambanova_basic_request() {
    // The payload for a plain user message, without tools.
    let model = ModelConfig::new("Meta-Llama-3.1-405B-Instruct".to_string());
    let message = Message::user().with_text("Say hello in Japanese");
    let payload = create_request(&model, "You are a helpful assistant.", &[message], Vec::new());
    assert_eq!(text_of(payload.get("model")).unwrap(), "Meta-Llama-3.1-405B-Instruct");
    assert!(payload.get("tools").is_none());
    assert!(payload.get("max_tokens").is_none());
    let messages = payload.get("messages").unwrap();
    let system = messages.at(0).unwrap();
    assert_eq!(text_of(system.get("role")).unwrap(), "system");
    assert_eq!(text_of(system.get("content")).unwrap(), "You are a helpful assistant.");
    let user = messages.at(1).unwrap();
    assert_eq!(text_of(user.get("role")).unwrap(), "user");
    assert_eq!(text_of(user.get("content")).unwrap(), "Say hello in Japanese");
    assert!(messages.at(2).is_none());
}

#[test]
fn test_sambanova_tool_calling() {
    let model = ModelConfig::new("Meta-Llama-3.1-405B-Instruct".to_string());
    let schema = obj(vec![
        ("type", s("object")),
        ("required", Json::Arr(vec![s("location")])),
        (
            "properties",
            obj(vec![(
                "location",
                obj(vec![
                    ("type", s("string")),
                    ("description", s("The city and state, e.g. San Francisco, CA")),
                ]),
            )]),
        ),
    ]);
    let weather_tool = Tool::new("get_weather", "Get the weather for a location", schema);
    let message = Message::user().with_text("What's the weather like in Tokyo?");
    let payload = create_request(
        &model,
        "You are a helpful weather assistant.",
        &[message],
        vec![weather_tool],
    );
    let tools = payload.get("tools").unwrap();
    let tool = tools.at(0).unwrap();
    assert!(tools.at(1).is_none());
    assert_eq!(text_of(tool.get("type")).unwrap(), "function");
    let f = tool.get("function").unwrap();
    assert_eq!(text_of(f.get("name")).unwrap(), "get_weather");
    assert_eq!(text_of(f.get("description")).unwrap(), "Get the weather for a location");
    let params = f.get("parameters").unwrap();
    assert_eq!(text_of(params.get("type")).unwrap(), "object");
    assert_eq!(text_of(params.get("required").unwrap().at(0)).unwrap(), "location");
}

#[test]
fn request_carries_max_tokens_last() {
    let model = ModelConfig::new("m".to_string()).with_max_tokens(Some(256));
    let payload = create_request(&model, "sys", &[], Vec::new());
    assert_eq!(payload.get("max_tokens").unwrap().as_i64(), Some(256));
    match &payload {
        Json::Obj(fields) => {
            let names: Vec<&str> = fields.iter().map(|f| f.0.as_str()).collect();
            assert_eq!(names, vec!["model", "messages", "max_tokens"]);
        }
        _ => panic!("payload is not an object"),
    }
}

#[test]
fn request_encodes_each_block() {
    let model = ModelConfig::new("m".to_string());
    let assistant = Message::assistant()
        .with_text("calling")
        .with_content(MessageContent::ToolRequest {
            id: "call_1".to_string(),
            name: "get_weather".to_string(),
            arguments: "{\"location\":\"Tokyo\"}".to_string(),
        });
    let user = Message::user()
        .with_content(MessageContent::ToolResponse { id: "call_1".to_string(), output: "sunny".to_string() })
        .with_content(MessageContent::Image { data: "QUJD".to_string(), mime_type: "image/png".to_string() });
    let payload = create_request(&model, "sys", &[assistant, user], Vec::new());
    let ms = payload.get("messages").unwrap();
    assert_eq!(text_of(ms.at(1).unwrap().get("content")).unwrap(), "calling");
    assert_eq!(text_of(ms.at(1).unwrap().get("role")).unwrap(), "assistant");
    let call = ms.at(2).unwrap().get("tool_calls").unwrap().at(0).unwrap();
    assert_eq!(text_of(call.get("id")).unwrap(), "call_1");
    assert_eq!(text_of(call.get("type")).unwrap(), "function");
    assert_eq!(text_of(call.get("function").unwrap().get("arguments")).unwrap(), "{\"location\":\"Tokyo\"}");
    let tool = ms.at(3).unwrap();
    assert_eq!(text_of(tool.get("role")).unwrap(), "tool");
    assert_eq!(text_of(tool.get("tool_call_id")).unwrap(), "call_1");
    assert_eq!(text_of(tool.get("content")).unwrap(), "sunny");
    let image = ms.at(4).unwrap();
    assert_eq!(text_of(image.get("role")).unwrap(), "user");
    let part = image.get("content").unwrap().at(0).unwrap();
    assert_eq!(text_of(part.get("type")).unwrap(), "image_url");
    assert_eq!(
        text_of(part.get("image_url").unwrap().get("url")).unwrap(),
        "data:image/png;base64,QUJD"
    );
    assert!(ms.at(5).is_none());
}

#[test]
fn missing_usage_gives_empty_usage_and_succeeds() {
    let (message, usage) = complete_from_response(200, "200 OK", Some(reply_body(false))).unwrap();
    assert_eq!(usage.usage, Usage::default());
    assert_eq!(usage.usage, Usage { input_tokens: None, output_tokens: None, total_tokens: None });
    assert_eq!(usage.model, "Meta-Llama-3.1-405B-Instruct");
    assert_eq!(message.role, Role::Assistant);
    assert_eq!(message.content, vec![MessageContent::Text("こんにちは".to_string())]);
}

#[test]
fn status_500_is_request_failed() {
    let r = complete_from_response(500, "500 Internal Server Error", Some(reply_body(true)));
    match r {
        Err(ProviderError::RequestFailed(m)) => {
            assert_eq!(m, "Request failed with status 500 Internal Server Error")
        }
        _ => panic!("expected RequestFailed"),
    }
}

#[test]
fn body_that_is_not_json_is_request_failed() {
    assert!(matches!(handle_response(200, "200 OK", None), Err(ProviderError::RequestFailed(_))));
}

#[test]
fn same_response_decodes_the_same() {
    let a = decode_completion(&reply_body(true)).unwrap();
    let b = decode_completion(&reply_body(true)).unwrap();
    assert_eq!(a, b);
}

#[test]
fn usage_counts_are_read() {
    let u = get_usage(&reply_body(true)).unwrap();
    assert_eq!(u, Usage { input_tokens: Some(12), output_tokens: Some(5), total_tokens: Some(17) });
}

#[test]
fn total_is_the_sum_when_absent() {
    let body = obj(vec![(
        "usage",
        obj(vec![("prompt_tokens", Json::Int(3)), ("completion_tokens", Json::Int(4))]),
    )]);
    let u = get_usage(&body).unwrap();
    assert_eq!(u, Usage { input_tokens: Some(3), output_tokens: Some(4), total_tokens: Some(7) });
}

#[test]
fn count_too_large_for_i32_is_absent() {
    let body = obj(vec![(
        "usage",
        obj(vec![("prompt_tokens", Json::Int(3_000_000_000)), ("completion_tokens", Json::Int(4))]),
    )]);
    let u = get_usage(&body).unwrap();
    assert_eq!(u, Usage { input_tokens: None, output_tokens: Some(4), total_tokens: None });
}

#[test]
fn no_usage_is_usage_error() {
    assert!(matches!(get_usage(&reply_body(false)), Err(ProviderError::UsageError(_))));
}

#[test]
fn model_defaults_to_unknown() {
    assert_eq!(get_model(&obj(vec![])), "unknown");
    assert_eq!(get_model(&reply_body(false)), "Meta-Llama-3.1-405B-Instruct");
}

#[test]
fn tool_calls_are_decoded() {
    let call = obj(vec![
        ("id", s("call_9")),
        ("type", s("function")),
        ("function", obj(vec![("name", s("get_weather")), ("arguments", s("{}"))])),
    ]);
    let message = obj(vec![("content", Json::Null), ("tool_calls", Json::Arr(vec![call]))]);
    let body = obj(vec![("choices", Json::Arr(vec![obj(vec![("message", message)])]))]);
    let m = response_to_message(&body).unwrap();
    assert_eq!(
        m.content,
        vec![MessageContent::ToolRequest {
            id: "call_9".to_string(),
            name: "get_weather".to_string(),
            arguments: "{}".to_string()
        }]
    );
}

#[test]
fn malformed_tool_call_fails() {
    let call = obj(vec![("id", s("call_9"))]);
    let message = obj(vec![("tool_calls", Json::Arr(vec![call]))]);
    let body = obj(vec![("choices", Json::Arr(vec![obj(vec![("message", message)])]))]);
    assert!(matches!(response_to_message(&body), Err(ProviderError::RequestFailed(_))));
}

#[test]
fn no_choices_fails() {
    assert!(matches!(decode_completion(&obj(vec![])), Err(ProviderError::RequestFailed(_))));
}
