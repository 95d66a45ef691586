use starred_repos::fetch::{api_url, bearer, step, FetchAction, FetchError, FetchEvent, FetchState};
use starred_repos::repo::Repo;

#[test]
fn api_url_is_exact() {
    assert_eq!(
        api_url("alice"),
        "https://api.github.com/users/alice/starred?per_page=10"
    );
}

#[test]
fn bearer_is_exact() {
    assert_eq!(bearer("sekrit"), "Bearer sekrit");
}

#[test]
fn cache_hit_goes_straight_to_decoding() {
    let (state, action) = step(
        FetchState::Start { user: "alice".to_string() },
        FetchEvent::CacheChecked { cached: Some("[]".to_string()) },
    );
    assert!(matches!(state, FetchState::Decoding));
    match action {
        FetchAction::DecodeBody { body } => assert_eq!(body, "[]"),
        other => panic!("expected a decode action, got {:?}", discriminant_name(&other)),
    }
}

#[test]
fn cache_miss_reads_credential_then_sends() {
    let (state, action) = step(
        FetchState::Start { user: "alice".to_string() },
        FetchEvent::CacheChecked { cached: None },
    );
    assert!(matches!(action, FetchAction::ReadCredential));
    let (state, action) = step(
        state,
        FetchEvent::CredentialRead { token: Some("tok".to_string()) },
    );
    assert!(matches!(state, FetchState::AwaitResponse { .. }));
    match action {
        FetchAction::SendRequest { url, authorization } => {
            assert_eq!(url, "https://api.github.com/users/alice/starred?per_page=10");
            assert_eq!(authorization, "Bearer tok");
        },
        other => panic!("expected a request, got {:?}", discriminant_name(&other)),
    }
}

#[test]
fn missing_credential_fails_without_request() {
    let (state, _) = step(
        FetchState::Start { user: "alice".to_string() },
        FetchEvent::CacheChecked { cached: None },
    );
    let (state, action) = step(state, FetchEvent::CredentialRead { token: None });
    assert!(matches!(action, FetchAction::Stop));
    match state {
        FetchState::Done { outcome } => {
            assert!(matches!(outcome, Err(FetchError::MissingCredential)));
        },
        _ => panic!("pipeline should be finished"),
    }
}

#[test]
fn connection_failure_reports_error() {
    let (state, action) = step(
        FetchState::AwaitResponse { user: "alice".to_string() },
        FetchEvent::ResponseReceived { response: None },
    );
    assert!(matches!(action, FetchAction::Stop));
    match state {
        FetchState::Done { outcome } => {
            assert!(matches!(outcome, Err(FetchError::ConnectionFailed)));
        },
        _ => panic!("pipeline should be finished"),
    }
}

#[test]
fn non_success_status_reports_its_code() {
    let (state, action) = step(
        FetchState::AwaitResponse { user: "alice".to_string() },
        FetchEvent::ResponseReceived { response: Some((404, "missing".to_string())) },
    );
    assert!(matches!(action, FetchAction::Stop));
    match state {
        FetchState::Done { outcome } => match outcome {
            Err(FetchError::BadStatus(code)) => assert_eq!(code, 404),
            _ => panic!("expected a status error"),
        },
        _ => panic!("pipeline should be finished"),
    }
}

#[test]
fn success_path_stores_then_decodes_then_finishes() {
    let (state, action) = step(
        FetchState::AwaitResponse { user: "alice".to_string() },
        FetchEvent::ResponseReceived { response: Some((200, "body-text".to_string())) },
    );
    assert!(matches!(state, FetchState::AwaitStore));
    match action {
        FetchAction::WriteCache { user, body } => {
            assert_eq!(user, "alice");
            assert_eq!(body, "body-text");
        },
        _ => panic!("a fresh body must be cached"),
    }
    let (state, action) = step(
        FetchState::AwaitStore,
        FetchEvent::BodyStored { body: "body-text".to_string() },
    );
    assert!(matches!(state, FetchState::Decoding));
    assert!(matches!(action, FetchAction::DecodeBody { .. }));
    let records = vec![Repo {
        name: "r".to_string(),
        url: "u".to_string(),
        description: "d".to_string(),
        star_count: 3,
    }];
    let (state, action) = step(
        FetchState::Decoding,
        FetchEvent::Decoded { records: Some(records) },
    );
    assert!(matches!(action, FetchAction::Stop));
    match state {
        FetchState::Done { outcome } => {
            let repos = outcome.expect("decoding succeeded");
            assert_eq!(repos.len(), 1);
            assert_eq!(repos[0].name, "r");
        },
        _ => panic!("pipeline should be finished"),
    }
}

#[test]
fn malformed_body_reports_decode_failure() {
    let (state, _) = step(FetchState::Decoding, FetchEvent::Decoded { records: None });
    match state {
        FetchState::Done { outcome } => {
            assert!(matches!(outcome, Err(FetchError::DecodeFailed)));
        },
        _ => panic!("pipeline should be finished"),
    }
}

fn discriminant_name(action: &FetchAction) -> &'static str {
    match action {
        FetchAction::CheckCache { .. } => "CheckCache",
        FetchAction::ReadCredential => "ReadCredential",
        FetchAction::SendRequest { .. } => "SendRequest",
        FetchAction::WriteCache { .. } => "WriteCache",
        FetchAction::DecodeBody { .. } => "DecodeBody",
        FetchAction::Stop => "Stop",
    }
}
