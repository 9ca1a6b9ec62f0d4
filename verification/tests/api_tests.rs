use qwen_coder_web::api::{
    authorization_value, call_failure, chat_completions_url, chat_request_headers, client_failure,
    chat_completions, completion_options, decomposition_headers, parse_failure, rejection,
    upstream_rejected, ChatEvent, ChatStep, Upstream,
};
use qwen_coder_web::tasks::{CallOutcome, ChatCompletionResponse};
use qwen_coder_web::config::AppConfig;
use qwen_coder_web::errors::ErrorStatus;
use qwen_coder_web::prompts::Prompt;

fn config(key: &str, org: Option<&str>) -> AppConfig {
    AppConfig {
        api_endpoint: "https://api.example.com/v1/".to_string(),
        api_key: key.to_string(),
        model_name: "m".to_string(),
        organization_id: org.map(|o| o.to_string()),
        timeout_secs: 60,
    }
}

fn pairs(h: &[(String, String)]) -> Vec<(&str, &str)> {
    h.iter().map(|(a, b)| (a.as_str(), b.as_str())).collect()
}

#[test]
fn completions_url_drops_trailing_slashes() {
    assert_eq!(chat_completions_url("https://api.openai.com/v1"), "https://api.openai.com/v1/chat/completions");
    assert_eq!(chat_completions_url("http://h/v1///"), "http://h/v1/chat/completions");
    assert_eq!(chat_completions_url(""), "/chat/completions");
}

#[test]
fn authorization_values() {
    assert_eq!(authorization_value("Bearer", "sk-1"), Ok("Bearer sk-1".to_string()));
    assert_eq!(authorization_value("token", ""), Ok("token ".to_string()));
    assert_eq!(authorization_value("Bearer", "a\nb"), Err("failed to parse header value".to_string()));
    assert_eq!(authorization_value("Bearer", "del\u{7f}"), Err("failed to parse header value".to_string()));
    assert_eq!(authorization_value("Bearer", "tab\there"), Ok("Bearer tab\there".to_string()));
    assert_eq!(authorization_value("Bearer", "ключ"), Ok("Bearer ключ".to_string()));
}

#[test]
fn chat_headers() {
    let h = chat_request_headers(&config("k", None)).unwrap();
    assert_eq!(pairs(&h), vec![("Authorization", "Bearer k"), ("Content-Type", "application/json")]);
    let h = chat_request_headers(&config("k", Some("org"))).unwrap();
    assert_eq!(
        pairs(&h),
        vec![("Authorization", "Bearer k"), ("Content-Type", "application/json"), ("OpenAI-Organization", "org")]
    );
    let e = chat_request_headers(&config("bad\r", None)).unwrap_err();
    assert_eq!(e.status, ErrorStatus::InternalServerError);
    assert_eq!(e.message, "failed to parse header value");
    let e = chat_request_headers(&config("k", Some("o\n"))).unwrap_err();
    assert_eq!(e.status.code(), 500);
}

#[test]
fn decomposition_request_headers() {
    let h = decomposition_headers(&config("k", Some("ignored")));
    assert_eq!(pairs(&h), vec![("Authorization", "Bearer k"), ("Content-Type", "application/json")]);
}

#[test]
fn failures_of_upstream_calls() {
    let e = call_failure(Upstream::Completions, "timeout");
    assert_eq!((e.status, e.message.as_str()), (ErrorStatus::BadGateway, "Failed to call API: timeout"));
    let e = call_failure(Upstream::Gitea, "dns");
    assert_eq!(e.message, "Failed to call Gitea API: dns");
    assert!(!upstream_rejected(200));
    assert!(!upstream_rejected(299));
    assert!(upstream_rejected(199));
    assert!(upstream_rejected(300));
    assert!(upstream_rejected(404));
    let e = rejection(Upstream::Completions, "denied");
    assert_eq!((e.status.code(), e.message.as_str()), (502, "API returned error: denied"));
    let e = rejection(Upstream::Gitea, "");
    assert_eq!(e.message, "Gitea returned error: ");
    let e = parse_failure("eof");
    assert_eq!((e.status, e.message.as_str()), (ErrorStatus::BadGateway, "Failed to parse response: eof"));
    let e = client_failure("tls");
    assert_eq!((e.status.code(), e.message.as_str()), (500, "tls"));
}

#[test]
fn completion_request_options() {
    assert_eq!(completion_options(None, None), (1024, false));
    assert_eq!(completion_options(Some(7), Some(true)), (7, true));
}

#[test]
fn status_codes() {
    assert_eq!(ErrorStatus::BadRequest.code(), 400);
    assert_eq!(ErrorStatus::Unauthorized.code(), 401);
    assert_eq!(ErrorStatus::NotFound.code(), 404);
    assert_eq!(ErrorStatus::InternalServerError.code(), 500);
    assert_eq!(ErrorStatus::BadGateway.code(), 502);
}

#[test]
fn fresh_ids_and_time() {
    let a = Prompt::new("a".to_string(), "x".to_string(), None);
    let b = Prompt::new("b".to_string(), "y".to_string(), None);
    assert_eq!(a.id.len(), 36);
    assert_ne!(a.id, b.id);
    assert_eq!(&a.id[14..15], "4");
    assert!(a.created_at.secs > 1_600_000_000);
    assert!(a.created_at.nanos < 1_000_000_000);
}

fn done(step: ChatStep) -> Result<ChatCompletionResponse, (u16, String)> {
    match step {
        ChatStep::Done(r) => r.map_err(|e| (e.status.code(), e.message)),
        other => panic!("not an answer: {:?}", other),
    }
}

#[test]
fn chat_completion_steps() {
    let c = config("sk-1", Some("org-9"));
    match chat_completions(&c, None, None, ChatEvent::Start) {
        ChatStep::BuildClient(t) => assert_eq!(t, 60),
        other => panic!("{:?}", other),
    }
    assert_eq!(
        done(chat_completions(&c, None, None, ChatEvent::ClientFailed("no tls".to_string()))).err(),
        Some((500, "no tls".to_string()))
    );
    match chat_completions(&c, Some(77), Some(true), ChatEvent::ClientReady) {
        ChatStep::Send(call) => {
            assert_eq!(call.url, "https://api.example.com/v1/chat/completions");
            assert_eq!(
                pairs(&call.headers),
                vec![
                    ("Authorization", "Bearer sk-1"),
                    ("Content-Type", "application/json"),
                    ("OpenAI-Organization", "org-9"),
                ]
            );
            assert_eq!(call.max_tokens, 77);
            assert!(call.stream);
        }
        other => panic!("{:?}", other),
    }
    match chat_completions(&config("k", None), None, None, ChatEvent::ClientReady) {
        ChatStep::Send(call) => {
            assert_eq!(call.max_tokens, 1024);
            assert!(!call.stream);
            assert_eq!(call.headers.len(), 2);
        }
        other => panic!("{:?}", other),
    }
    assert_eq!(
        done(chat_completions(&config("bad\nkey", None), None, None, ChatEvent::ClientReady)).err(),
        Some((500, "failed to parse header value".to_string()))
    );
}

#[test]
fn chat_completion_outcomes() {
    let c = config("k", None);
    let called = |o: CallOutcome| done(chat_completions(&c, None, None, ChatEvent::Called(o)));
    assert_eq!(called(CallOutcome::NotSent("timed out".to_string())).err(), Some((502, "Failed to call API: timed out".to_string())));
    assert_eq!(called(CallOutcome::Rejected("denied".to_string())).err(), Some((502, "API returned error: denied".to_string())));
    assert_eq!(called(CallOutcome::Unparsable("eof".to_string())).err(), Some((502, "Failed to parse response: eof".to_string())));
    let answer = ChatCompletionResponse {
        id: "x".to_string(),
        object: "chat.completion".to_string(),
        created: 5,
        model: "m".to_string(),
        choices: Vec::new(),
        usage: None,
    };
    let r = called(CallOutcome::Answered(answer)).ok().unwrap();
    assert_eq!(r.id, "x");
    assert_eq!(r.created, 5);
}
