use lit::http::{check_body_size, first_attempt, looks_valid, next_action, sends_key, GetState, HttpAction, HttpReply};

fn resp(status: u16, text: &str, retry_after: Option<&str>) -> HttpReply {
    HttpReply::Response {
        status,
        status_text: text.to_string(),
        retry_after: retry_after.map(|s| s.to_string()),
        content_length: None,
    }
}

#[test]
fn http_success_reads_body() {
    let (_, a) = next_action("https://x.org/a", false, first_attempt(), &resp(200, "200 OK", None));
    assert!(matches!(a, HttpAction::ReadBody));
}

#[test]
fn http_server_errors_back_off_exponentially() {
    let mut st = first_attempt();
    let mut waits = Vec::new();
    for _ in 0..7 {
        let (s, a) = next_action("https://x.org/a", false, st, &resp(503, "503 Service Unavailable", None));
        match a {
            HttpAction::Retry { wait_secs } => waits.push(wait_secs),
            _ => panic!("expected a retry"),
        }
        st = s;
    }
    assert_eq!(waits, vec![1, 2, 4, 8, 16, 30, 30]);
}

#[test]
fn http_last_attempt_gives_up() {
    let st = GetState { attempt: 9, use_key: false, key_failed: false };
    let (_, a) = next_action("https://x.org/a", false, st, &resp(503, "503 Service Unavailable", None));
    match a {
        HttpAction::Fail(m) => assert_eq!(m, "HTTP 503 Service Unavailable for https://x.org/a"),
        _ => panic!("expected failure"),
    }
    let (_, a) = next_action("https://x.org/a", false, st, &resp(429, "429 Too Many Requests", None));
    match a {
        HttpAction::Fail(m) => assert_eq!(m, "HTTP 429 Too Many Requests for https://x.org/a (retried 10x)"),
        _ => panic!("expected failure"),
    }
    let (_, a) = next_action("https://x.org/a", false, st, &HttpReply::Transport { retryable: true });
    assert!(matches!(a, HttpAction::FailTransport));
}

#[test]
fn http_rate_limit_honours_retry_after_capped() {
    let (_, a) = next_action("https://x.org/a", false, first_attempt(), &resp(429, "429", Some("7")));
    assert!(matches!(a, HttpAction::Retry { wait_secs: 7 }));
    let (_, a) = next_action("https://x.org/a", false, first_attempt(), &resp(429, "429", Some("120")));
    assert!(matches!(a, HttpAction::Retry { wait_secs: 30 }));
    let (_, a) = next_action("https://x.org/a", false, first_attempt(), &resp(429, "429", Some("soon")));
    assert!(matches!(a, HttpAction::Retry { wait_secs: 1 }));
}

#[test]
fn http_s2_key_cascade_and_fallback() {
    let url = "https://api.semanticscholar.org/graph/v1/paper/x";
    let st = first_attempt();
    assert!(!sends_key(url, true, &st));
    let (st, a) = next_action(url, true, st, &resp(429, "429", None));
    assert!(matches!(a, HttpAction::Retry { wait_secs: 1 }));
    assert!(st.use_key && sends_key(url, true, &st));
    let (st, a) = next_action(url, true, st, &resp(403, "403 Forbidden", None));
    assert!(matches!(a, HttpAction::Retry { wait_secs: 1 }));
    assert!(!st.use_key && st.key_failed);
    // A refused key is not tried again.
    let (st2, _) = next_action(url, true, st, &resp(429, "429", None));
    assert!(!st2.use_key);
}

#[test]
fn http_size_limits_and_cache_check() {
    let huge = HttpReply::Response { status: 200, status_text: "200 OK".into(), retry_after: None, content_length: Some(52428801) };
    let (_, a) = next_action("u", false, first_attempt(), &huge);
    match a {
        HttpAction::Fail(m) => assert_eq!(m, "Response too large (52428801 bytes) for u"),
        _ => panic!("expected failure"),
    }
    assert!(check_body_size(52428800, "u").is_ok());
    assert!(check_body_size(52428801, "u").is_err());
    assert!(looks_valid("  {\"a\": 1}"));
    assert!(looks_valid("<feed>"));
    assert!(!looks_valid("   "));
    assert!(!looks_valid("Error 500"));
}

#[test]
fn http_s2_last_attempt_fails_without_switching_key() {
    let url = "https://api.semanticscholar.org/graph/v1/paper/x";
    let st = GetState { attempt: 9, use_key: false, key_failed: false };
    let (s, a) = next_action(url, true, st, &resp(429, "429 Too Many Requests", None));
    assert_eq!(s.attempt, 9);
    match a {
        HttpAction::Fail(m) => assert_eq!(m, format!("HTTP 429 Too Many Requests for {} (retried 10x)", url)),
        _ => panic!("expected failure"),
    }
    let st = GetState { attempt: 9, use_key: true, key_failed: false };
    let (_, a) = next_action(url, true, st, &resp(403, "403 Forbidden", None));
    match a {
        HttpAction::Fail(m) => assert_eq!(m, format!("HTTP 403 Forbidden for {}", url)),
        _ => panic!("expected failure"),
    }
}
