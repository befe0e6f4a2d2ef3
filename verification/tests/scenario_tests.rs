use agent_web_server::agent::{
    build_request, first_reply_content, AgentError, Candidate, ProviderOutcome, ProviderRole,
};
use agent_web_server::auth::{authenticate_request, AuthError, AuthHeader, JwtClaim};
use agent_web_server::config::ServerConfig;
use agent_web_server::controller::{
    ask_agent_begin, ask_agent_finish, clear_history, fetch_history, init_session, test_auth,
    TestBody,
};
use agent_web_server::message::ChatMessage;
use agent_web_server::protocol::AppResp;
use agent_web_server::store::TranscriptStore;
use jwt_simple::algorithms::{HS256Key, MACLike};
use jwt_simple::claims::Claims;
use jwt_simple::reexports::coarsetime::{Clock, Duration};

#[test]
fn exchange_persists_user_then_assistant() {
    let key = HS256Key::generate();
    let token = match init_session(&key, 30) {
        AppResp::Success(t) => t,
        AppResp::Exception(e) => panic!("issue failed: {e}"),
    };
    let header = AuthHeader::Present(format!("Bearer {token}"));
    let claim = authenticate_request(&key, &header).unwrap();
    let uuid = claim.uuid;

    let mut store = TranscriptStore::new();
    let request = ask_agent_begin(&mut store, &uuid, "Hello", 100, "be helpful", "test-model");
    assert_eq!(request.model, "test-model");
    assert_eq!(request.max_tokens, 512);
    assert_eq!(request.messages.len(), 2);
    assert!(matches!(request.messages[0].role, ProviderRole::System));
    assert_eq!(request.messages[0].content, "be helpful");
    assert!(matches!(request.messages[1].role, ProviderRole::User));
    assert_eq!(request.messages[1].content, "Hello");

    let outcome = ProviderOutcome::Reply(vec![Candidate { content: Some("Hi there".to_string()) }]);
    let resp = ask_agent_finish(&mut store, &uuid, &outcome, 101);
    assert!(resp.is_success());

    let history = match fetch_history(&store, &uuid) {
        AppResp::Success(turns) => turns,
        AppResp::Exception(e) => panic!("fetch failed: {e}"),
    };
    assert_eq!(history.len(), 2);
    assert_eq!(history[0].role, "User");
    assert_eq!(history[0].content, "Hello");
    assert_eq!(history[1].role, "Assistant");
    assert_eq!(history[1].content, "Hi there");
}

#[test]
fn expired_token_ask_is_unauthorized_and_persists_nothing() {
    let key = HS256Key::generate();
    let mut claims = Claims::create(Duration::from_secs(1)).with_subject("subject-exp");
    claims.expires_at = Some(Clock::now_since_epoch() - Duration::from_hours(2));
    let token = key.authenticate(claims).unwrap();
    let header = AuthHeader::Present(format!("Bearer {token}"));

    let store = TranscriptStore::new();
    let outcome = authenticate_request(&key, &header);
    let err = match outcome {
        Ok(_) => panic!("expired token was accepted"),
        Err(e) => e,
    };
    assert!(matches!(err, AuthError::Unauthorized));
    let envelope: AppResp<()> = AppResp::Exception(err.message());
    assert!(!envelope.is_success());
    match envelope {
        AppResp::Exception(m) => assert_eq!(m, "Invalid or expired JWT."),
        AppResp::Success(_) => unreachable!(),
    }
    let history = match fetch_history(&store, "subject-exp") {
        AppResp::Success(turns) => turns,
        AppResp::Exception(e) => panic!("fetch failed: {e}"),
    };
    assert!(history.is_empty());
}

#[test]
fn provider_failure_keeps_only_user_turn() {
    let mut store = TranscriptStore::new();
    let _request = ask_agent_begin(&mut store, "s", "Hello", 10, "sys", "m");
    let outcome = ProviderOutcome::Failure("connection reset".to_string());
    let resp = ask_agent_finish(&mut store, "s", &outcome, 11);
    match resp {
        AppResp::Exception(m) => assert_eq!(m, "agent request failed"),
        AppResp::Success(_) => panic!("failure outcome reported success"),
    }
    let history = match fetch_history(&store, "s") {
        AppResp::Success(turns) => turns,
        AppResp::Exception(e) => panic!("fetch failed: {e}"),
    };
    assert_eq!(history.len(), 1);
    assert_eq!(history[0].role, "User");
    assert_eq!(history[0].content, "Hello");
}

#[test]
fn empty_or_blank_reply_persists_nothing_more() {
    let mut store = TranscriptStore::new();
    let _request = ask_agent_begin(&mut store, "s", "Hello", 10, "sys", "m");

    let no_candidate = ProviderOutcome::Reply(vec![]);
    match ask_agent_finish(&mut store, "s", &no_candidate, 11) {
        AppResp::Exception(m) => assert_eq!(m, "no usable reply"),
        AppResp::Success(_) => panic!("empty reply reported success"),
    }
    let blank_candidate = ProviderOutcome::Reply(vec![Candidate { content: None }]);
    match ask_agent_finish(&mut store, "s", &blank_candidate, 12) {
        AppResp::Exception(m) => assert_eq!(m, "no usable reply"),
        AppResp::Success(_) => panic!("blank reply reported success"),
    }
    let history = match fetch_history(&store, "s") {
        AppResp::Success(turns) => turns,
        AppResp::Exception(e) => panic!("fetch failed: {e}"),
    };
    assert_eq!(history.len(), 1);
}

#[test]
fn concurrent_subjects_do_not_interleave() {
    let mut store = TranscriptStore::new();
    let _ra = ask_agent_begin(&mut store, "alice", "Hi from alice", 1, "sys", "m");
    let _rb = ask_agent_begin(&mut store, "bob", "Hi from bob", 2, "sys", "m");
    let oa = ProviderOutcome::Reply(vec![Candidate { content: Some("Hello alice".to_string()) }]);
    let ob = ProviderOutcome::Reply(vec![Candidate { content: Some("Hello bob".to_string()) }]);
    ask_agent_finish(&mut store, "bob", &ob, 3);
    ask_agent_finish(&mut store, "alice", &oa, 4);

    let a = match fetch_history(&store, "alice") {
        AppResp::Success(turns) => turns,
        AppResp::Exception(e) => panic!("fetch failed: {e}"),
    };
    assert_eq!(a.len(), 2);
    assert!(a.iter().all(|t| t.uuid == "alice"));
    assert_eq!(a[0].content, "Hi from alice");
    assert_eq!(a[1].content, "Hello alice");

    let b = match fetch_history(&store, "bob") {
        AppResp::Success(turns) => turns,
        AppResp::Exception(e) => panic!("fetch failed: {e}"),
    };
    assert_eq!(b.len(), 2);
    assert!(b.iter().all(|t| t.uuid == "bob"));
    assert_eq!(b[0].content, "Hi from bob");
    assert_eq!(b[1].content, "Hello bob");
}

#[test]
fn two_sessions_get_different_subjects() {
    let key = HS256Key::generate();
    let t1 = match init_session(&key, 30) {
        AppResp::Success(t) => t,
        AppResp::Exception(e) => panic!("issue failed: {e}"),
    };
    let t2 = match init_session(&key, 30) {
        AppResp::Success(t) => t,
        AppResp::Exception(e) => panic!("issue failed: {e}"),
    };
    let h1 = AuthHeader::Present(format!("Bearer {t1}"));
    let h2 = AuthHeader::Present(format!("Bearer {t2}"));
    let c1 = authenticate_request(&key, &h1).unwrap();
    let c2 = authenticate_request(&key, &h2).unwrap();
    assert_ne!(c1.uuid, c2.uuid);
}

#[test]
fn init_session_succeeds_up_to_the_lifetime_bound() {
    let key = HS256Key::generate();
    let resp = init_session(&key, agent_web_server::auth::MAX_JWT_EXPIRE_DAYS);
    let token = match resp {
        AppResp::Success(t) => t,
        AppResp::Exception(e) => panic!("issue failed: {e}"),
    };
    let header = AuthHeader::Present(format!("Bearer {token}"));
    assert!(authenticate_request(&key, &header).is_ok());
}

#[test]
fn clear_history_endpoint_empties_subject() {
    let mut store = TranscriptStore::new();
    let _r = ask_agent_begin(&mut store, "s", "Hello", 1, "sys", "m");
    let resp = clear_history(&mut store, "s");
    assert!(resp.is_success());
    let history = match fetch_history(&store, "s") {
        AppResp::Success(turns) => turns,
        AppResp::Exception(e) => panic!("fetch failed: {e}"),
    };
    assert!(history.is_empty());
}

#[test]
fn test_auth_echoes_body() {
    let body = TestBody { id: 7, message: "ping".to_string() };
    match test_auth(body) {
        AppResp::Success(b) => {
            assert_eq!(b.id, 7);
            assert_eq!(b.message, "ping");
        },
        AppResp::Exception(e) => panic!("echo failed: {e}"),
    }
}

#[test]
fn build_request_translates_history_in_order() {
    let history = vec![
        ChatMessage::create_user("s", "q1"),
        ChatMessage::create_assistant("s", "a1"),
        ChatMessage::create_user("s", "q2"),
    ];
    let request = build_request("directive", "model-x", &history);
    assert_eq!(request.model, "model-x");
    assert_eq!(request.max_tokens, 512);
    assert_eq!(request.messages.len(), 4);
    assert!(matches!(request.messages[0].role, ProviderRole::System));
    assert_eq!(request.messages[0].content, "directive");
    assert!(matches!(request.messages[1].role, ProviderRole::User));
    assert_eq!(request.messages[1].content, "q1");
    assert!(matches!(request.messages[2].role, ProviderRole::Assistant));
    assert_eq!(request.messages[2].content, "a1");
    assert!(matches!(request.messages[3].role, ProviderRole::User));
    assert_eq!(request.messages[3].content, "q2");
}

#[test]
fn first_reply_content_judges_outcomes() {
    let good = ProviderOutcome::Reply(vec![
        Candidate { content: Some("first".to_string()) },
        Candidate { content: Some("second".to_string()) },
    ]);
    assert_eq!(first_reply_content(&good).unwrap(), "first");

    let empty = ProviderOutcome::Reply(vec![]);
    assert!(matches!(first_reply_content(&empty), Err(AgentError::NoUsableReply)));

    let blank = ProviderOutcome::Reply(vec![Candidate { content: None }]);
    assert!(matches!(first_reply_content(&blank), Err(AgentError::NoUsableReply)));

    let failed = ProviderOutcome::Failure("quota exceeded".to_string());
    assert!(matches!(first_reply_content(&failed), Err(AgentError::ProviderFailure)));
}

#[test]
fn default_config_values() {
    let config = ServerConfig::default();
    assert_eq!(config.db_pool_size, 10);
    assert_eq!(config.jwt_expire_days, 30);
    assert_eq!(config.chat_expire_days, 30);
    assert_eq!(config.api_base, "https://api.openai.com/v1");
    assert_eq!(config.api_key, "<API Key>");
    assert_eq!(config.model, "chatgpt-4o-latest");
    assert_eq!(config.sys_prompt, "You are a helpful assistant.");
}
