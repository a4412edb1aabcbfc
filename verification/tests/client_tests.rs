use ai_chat::chat::{
    network_error, ApiError, ApiResponse, ChatClient, ChatConfig, ChatError, Choice,
    ChoiceMessage, SendReply,
};
use ai_chat::providers::ClientError;

fn response(texts: &[&str], error: Option<&str>) -> ApiResponse {
    ApiResponse {
        choices: texts
            .iter()
            .map(|t| Choice { message: ChoiceMessage { content: t.to_string() } })
            .collect(),
        error: error.map(|m| ApiError { message: m.to_string(), error_type: "x".to_string() }),
    }
}

#[test]
fn successful_send_records_both_messages() {
    let mut c = ChatClient::new(ChatConfig::default()).with_system_message("sys");
    c.begin_send("hi");
    let r = c.finish_send(SendReply::Received { status: 200, response: response(&["hello", "other"], None) });
    assert_eq!(r.unwrap(), "hello");
    let h = c.get_history();
    assert_eq!(h.len(), 3);
    assert_eq!((h[0].role.as_str(), h[0].content.as_str()), ("system", "sys"));
    assert_eq!((h[1].role.as_str(), h[1].content.as_str()), ("user", "hi"));
    assert_eq!((h[2].role.as_str(), h[2].content.as_str()), ("assistant", "hello"));
    c.clear_history();
    assert!(c.get_history().is_empty());
    assert_eq!(c.config().max_tokens, Some(1024));
}

#[test]
fn failed_sends_keep_the_user_message() {
    let mut c = ChatClient::new(ChatConfig::default());
    c.begin_send("q");
    match c.finish_send(SendReply::Received { status: 401, response: response(&["ignored"], Some("bad key")) }) {
        Err(ChatError::ApiError { status, message }) => {
            assert_eq!(status, 401);
            assert_eq!(message, "bad key");
        }
        _ => panic!("expected an API error"),
    }
    c.begin_send("q2");
    match c.finish_send(SendReply::Received { status: 200, response: response(&[], None) }) {
        Err(ChatError::InvalidResponse(m)) => assert_eq!(m, "No choices in response"),
        _ => panic!("expected an invalid response"),
    }
    c.begin_send("q3");
    match c.finish_send(SendReply::Undecodable { detail: "eof".to_string() }) {
        Err(ChatError::NetworkError(m)) => assert_eq!(m, "eof"),
        _ => panic!("expected a network error"),
    }
    let h = c.get_history();
    assert_eq!(h.len(), 3);
    assert!(h.iter().all(|m| m.role == "user"));
}

#[test]
fn network_errors_are_classified() {
    let text = |d: &str| match network_error(d) {
        ChatError::NetworkError(m) => m,
        _ => panic!("not a network error"),
    };
    assert_eq!(text("invalid peer certificate"), "SSL证书验证失败: invalid peer certificate");
    assert_eq!(text("ssl handshake"), "SSL证书验证失败: ssl handshake");
    assert_eq!(text("dns error: no record"), "DNS解析失败: dns error: no record");
    assert_eq!(text("failed to resolve host"), "DNS解析失败: failed to resolve host");
    assert_eq!(text("operation timeout"), "请求超时: operation timeout");
    assert_eq!(text("connection refused"), "连接失败: connection refused");
    assert_eq!(text("other"), "other");
    let mut c = ChatClient::new(ChatConfig::default());
    c.begin_send("q");
    match c.finish_send(SendReply::Unsent { detail: "tcp connection reset".to_string() }) {
        Err(ChatError::NetworkError(m)) => assert_eq!(m, "连接失败: tcp connection reset"),
        _ => panic!("expected a network error"),
    }
}

#[test]
fn error_texts() {
    assert_eq!(ChatError::NetworkError("x".to_string()).to_string(), "Network request failed: x");
    assert_eq!(
        ChatError::ApiError { status: 429, message: "slow down".to_string() }.to_string(),
        "API error: 429 - slow down"
    );
    assert_eq!(ChatError::InvalidResponse("y".to_string()).to_string(), "Invalid response: y");
    assert_eq!(ClientError::Network("n".to_string()).to_string(), "Network error: n");
    assert_eq!(
        ClientError::Api { status: 503, message: "down".to_string(), code: None }.to_string(),
        "API error (503): down"
    );
    assert_eq!(ClientError::Parse("p".to_string()).to_string(), "Parse error: p");
    assert_eq!(ClientError::Auth("a".to_string()).to_string(), "Auth error: a");
    assert_eq!(ClientError::RateLimit("r".to_string()).to_string(), "Rate limit exceeded: r");
}
