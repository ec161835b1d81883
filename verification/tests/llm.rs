use neko_router::error::NekoError;
use neko_router::llm::{
    extract_json, is_success, judge, parse_or_fallback, read_embeddings, read_response,
    ChatCompletionResponse, EmbeddingExchange, Exchange, OpenAiChoice, OpenAiCompatibleClient,
    OpenAiEmbeddingClient, OpenAiMessage, Verdict,
};
use neko_router::secret::Secret;
use neko_router::single::Single;
use neko_router::types::{
    FinishReason, LlmMessage, LlmRequest, LlmResponse, LlmRole, ResponseFormat, TokenUsage,
};

fn single(x: f32) -> Single {
    Single { bits: x.to_bits() }
}

fn request() -> LlmRequest {
    LlmRequest {
        messages: vec![LlmMessage { role: LlmRole::User, content: "hi".to_string() }],
        temperature: single(0.9),
        max_tokens: Some(16),
        response_format: Some(ResponseFormat::Text),
    }
}

fn client(base_url: &str, max_retries: u32) -> OpenAiCompatibleClient {
    OpenAiCompatibleClient::new(
        "test".to_string(),
        &format!("{base_url}/v1"),
        "test-model".to_string(),
        Secret::new("sk-test".to_string()),
        single(0.9),
        Some(16),
        ResponseFormat::Text,
    )
    .unwrap()
    .with_retry(max_retries)
}

fn ok_body() -> Exchange {
    Exchange::Answered(ChatCompletionResponse {
        choices: vec![OpenAiChoice {
            message: OpenAiMessage { role: "assistant".to_string(), content: "你好呀".to_string() },
            finish_reason: Some("stop".to_string()),
        }],
        usage: Some(TokenUsage { prompt_tokens: 10, completion_tokens: 5, total_tokens: 15 }),
    })
}

fn refused(status: u16, body: &str) -> Exchange {
    Exchange::Refused(status, Some(body.to_string()))
}

/// Plays the exchanges one after the other; gives the result and how many
/// requests were made.
fn complete(client: &OpenAiCompatibleClient, exchanges: Vec<Exchange>) -> (Result<LlmResponse, NekoError>, usize) {
    let mut left = client.max_retries();
    let mut made = 0usize;
    for exchange in exchanges {
        made += 1;
        match judge(exchange, left) {
            Verdict::Retry(then) => left = then,
            Verdict::Done(res) => return (res, made),
        }
    }
    panic!("no result")
}

#[test]
fn retries_after_http_500_and_succeeds() {
    let client = client("http://127.0.0.1:9", 1);
    assert_eq!(client.endpoint().unwrap(), "http://127.0.0.1:9/v1/chat/completions");
    let (resp, made) = complete(&client, vec![refused(500, "boom"), ok_body()]);
    let resp = resp.expect("should succeed");
    assert_eq!(resp.content, "你好呀");
    assert_eq!(resp.finish_reason, FinishReason::Stop);
    assert_eq!(made, 2);
}

#[test]
fn gives_up_after_max_retries() {
    let client = client("http://127.0.0.1:9", 1);
    let (res, made) = complete(
        &client,
        vec![refused(503, "unavailable"), refused(503, "unavailable"), ok_body()],
    );
    let err = res.expect_err("should fail");
    assert!(matches!(err, NekoError::Transport(_)));
    assert_eq!(err.message(), "transport error: llm returned 503 Service Unavailable: unavailable");
    assert_eq!(made, 2); // initial + 1 retry
}

#[test]
fn does_not_retry_client_errors() {
    let client = client("http://127.0.0.1:9", 3);
    let (res, made) = complete(&client, vec![refused(400, "bad request"), ok_body()]);
    let err = res.expect_err("should fail");
    assert!(matches!(err, NekoError::Llm(_)));
    assert_eq!(made, 1);
}

#[test]
fn retries_on_429_throttling() {
    let client = client("http://127.0.0.1:9", 2);
    let (resp, _) = complete(&client, vec![refused(429, "rate limited"), ok_body()]);
    assert_eq!(resp.expect("should succeed after 429").content, "你好呀");
}

#[test]
fn throttling_that_does_not_end_is_an_error_of_the_model() {
    let client = client("http://127.0.0.1:9", 1);
    let (res, made) = complete(&client, vec![refused(429, "slow"), refused(429, "slow"), ok_body()]);
    let err = res.expect_err("should fail");
    assert!(matches!(err, NekoError::Llm(_)));
    assert_eq!(err.message(), "llm error: llm returned 429 Too Many Requests: slow");
    assert_eq!(made, 2);
}

#[test]
fn failed_sends_are_tried_again() {
    let once = client("http://h", 0);
    let (res, made) = complete(&once, vec![Exchange::SendFailed("x".to_string())]);
    assert_eq!(res.unwrap_err().message(), "transport error: llm request failed: x");
    assert_eq!(made, 1);
    let (res, made) = complete(&client("http://h", 1), vec![Exchange::SendFailed("x".to_string()), ok_body()]);
    assert!(res.is_ok());
    assert_eq!(made, 2);
}

#[test]
fn unreadable_answers_are_final() {
    let (res, made) = complete(&client("http://h", 5), vec![Exchange::Undecodable("eof".to_string())]);
    assert_eq!(res.unwrap_err().message(), "parse error: cannot decode llm response: eof");
    assert_eq!(made, 1);
    let (res, _) = complete(&client("http://h", 0), vec![Exchange::Refused(404, None)]);
    assert_eq!(res.unwrap_err().message(), "llm error: llm returned 404 Not Found: <no body>");
}

#[test]
fn reads_the_first_choice() {
    let choice = |reason: Option<&str>| OpenAiChoice {
        message: OpenAiMessage { role: "assistant".to_string(), content: "c".to_string() },
        finish_reason: reason.map(|r| r.to_string()),
    };
    let cases = [
        (None, FinishReason::Stop),
        (Some("stop"), FinishReason::Stop),
        (Some("length"), FinishReason::Length),
        (Some("content_filter"), FinishReason::ContentFilter),
        (Some("tool"), FinishReason::Other("tool".to_string())),
    ];
    for (reason, want) in cases {
        let resp = ChatCompletionResponse { choices: vec![choice(reason)], usage: None };
        let got = read_response(resp).unwrap();
        assert_eq!(got.finish_reason, want);
        assert_eq!(got.usage.total_tokens, 0);
    }
    let none = ChatCompletionResponse { choices: vec![], usage: None };
    assert_eq!(read_response(none).unwrap_err(), NekoError::Llm("llm returned no choices".to_string()));
}

#[test]
fn requests_fill_in_defaults() {
    let json = OpenAiCompatibleClient::new(
        "n".to_string(),
        "https://api.example.com/v1///",
        "m".to_string(),
        Secret::new("k".to_string()),
        single(0.1),
        Some(7),
        ResponseFormat::JsonObject,
    )
    .unwrap();
    let req = LlmRequest {
        messages: vec![
            LlmMessage { role: LlmRole::System, content: "a".to_string() },
            LlmMessage { role: LlmRole::Assistant, content: "b".to_string() },
        ],
        temperature: single(0.5),
        max_tokens: None,
        response_format: None,
    };
    let body = json.request_body(&req);
    assert_eq!(body.model, "m");
    assert_eq!(body.messages[0].role, "system");
    assert_eq!(body.messages[1].role, "assistant");
    assert_eq!(body.temperature, Some(single(0.5)));
    assert_eq!(body.max_tokens, Some(7));
    assert_eq!(body.response_format, Some("json_object".to_string()));
    let body = json.request_body(&request());
    assert_eq!(body.messages[0].role, "user");
    assert_eq!(body.max_tokens, Some(16));
    assert_eq!(body.response_format, None);
    assert_eq!(json.endpoint().unwrap(), "https://api.example.com/v1/chat/completions");
    assert_eq!(json.authorization(), "Bearer k");
    assert_eq!((json.name(), json.model(), json.max_retries()), ("n", "m", 0));
}

fn try_new(base: &str, key: &str) -> Result<OpenAiCompatibleClient, NekoError> {
    OpenAiCompatibleClient::new(
        "n".to_string(),
        base,
        "m".to_string(),
        Secret::new(key.to_string()),
        single(0.1),
        None,
        ResponseFormat::Text,
    )
}

#[test]
fn bad_addresses_and_keys_are_refused() {
    let e = try_new("not a url", "k").err().unwrap();
    assert_eq!(e.message(), "config error: invalid base_url: relative URL without a base");
    let e = try_new("http://h", "a\nb").err().unwrap();
    assert_eq!(e.message(), "config error: invalid api key header: failed to parse header value");
    assert!(try_new("http://h", "a\tb").is_ok());
    assert!(try_new("http://h", "\u{7f}").is_err());
    assert!(try_new("http://h", "ключ").is_ok());
}

#[test]
fn embeddings_come_one_for_each_text() {
    let c = OpenAiEmbeddingClient::new(
        "e".to_string(),
        "http://h/v1/",
        "m".to_string(),
        Secret::new("k".to_string()),
        4,
    )
    .unwrap();
    assert_eq!((c.name(), c.model(), c.vector_dim()), ("e", "m", 4));
    assert_eq!(c.authorization(), "Bearer k");
    assert_eq!(c.endpoint().unwrap(), "http://h/embeddings");
    assert!(c.request_body(&vec![]).is_none());
    let body = c.request_body(&vec!["a".to_string()]).unwrap();
    assert_eq!((body.model.as_str(), body.input), ("m", vec!["a".to_string()]));
    let v = vec![vec![single(1.0)]];
    assert_eq!(read_embeddings(EmbeddingExchange::Answered(v.clone()), 1).unwrap(), v);
    assert_eq!(
        read_embeddings(EmbeddingExchange::Answered(v), 2).unwrap_err().message(),
        "llm error: embeddings returned 1 vectors for 2 texts"
    );
    assert_eq!(
        read_embeddings(EmbeddingExchange::Refused(500, Some("x".to_string())), 2).unwrap_err().message(),
        "llm error: embeddings returned 500 Internal Server Error: x"
    );
    assert_eq!(
        read_embeddings(EmbeddingExchange::SendFailed("x".to_string()), 2).unwrap_err().message(),
        "transport error: embedding request failed: x"
    );
    assert_eq!(
        read_embeddings(EmbeddingExchange::Undecodable("x".to_string()), 2).unwrap_err().message(),
        "parse error: cannot decode embeddings response: x"
    );
}

#[test]
fn extracts_json_from_fences() {
    let cases = [
        ("{}", "{}"),
        ("  {} \n", "{}"),
        ("```json\n{\"a\":1}\n```", "{\"a\":1}"),
        ("```\n{}\n```", "{}"),
        ("```json {}", "{}"),
        ("```{}", "{}"),
        ("", ""),
    ];
    for (raw, want) in cases {
        assert_eq!(extract_json(raw), Some(want.to_string()));
    }
}

fn read_number(s: &str) -> Result<i64, String> {
    s.parse::<i64>().map_err(|e| e.to_string())
}

#[test]
fn falls_back_to_the_text() {
    assert_eq!(parse_or_fallback("```\n42\n```", &read_number), Ok(42));
    assert_eq!(
        parse_or_fallback(" x ", &read_number),
        Err(("invalid digit found in string".to_string(), "x".to_string()))
    );
}

#[test]
fn success_is_the_two_hundreds() {
    assert!(is_success(200) && is_success(299));
    assert!(!is_success(199) && !is_success(300));
}
