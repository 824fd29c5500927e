use state_machine::auth::{require_auth, Access, ApiKey};
use state_machine::cache::TokenCache;
use state_machine::db::is_local_database;
use state_machine::errors::{AppError, ErrorReply};
use state_machine::ingest_tokens::{get_or_create, TokenSearch, TokenSource, TokenStep};
use state_machine::json::{values_equal, Value};

fn denial(access: Access) -> ErrorReply {
    match access {
        Access::Denied(reply) => reply,
        Access::Granted => panic!("granted"),
    }
}

#[test]
fn the_key_opens() {
    let key = ApiKey("dev_secret".into());
    assert!(matches!(require_auth(Some(&key), Some("Bearer dev_secret")), Access::Granted));
    for header in ["Bearer dev_secret2", "Bearer ", "Bearer  dev_secret", "Bearer DEV_SECRET"] {
        let reply = denial(require_auth(Some(&key), Some(header)));
        assert_eq!(reply.status, 401);
        assert_eq!(reply.code, "UNAUTHORIZED");
        assert_eq!(reply.message, "Invalid API key");
        assert!(!reply.retry);
    }
    for header in [None, Some("dev_secret"), Some("bearer dev_secret"), Some("Bearer"), Some("")] {
        let reply = denial(require_auth(Some(&key), header));
        assert_eq!(reply.status, 401);
        assert_eq!(reply.message, "Missing Authorization: Bearer <token> header");
    }
}

#[test]
fn without_a_key_everyone_may_go_on() {
    let key = ApiKey(String::new());
    assert!(matches!(require_auth(Some(&key), None), Access::Granted));
    assert!(matches!(require_auth(Some(&key), Some("whatever")), Access::Granted));
}

#[test]
fn without_configuration_nobody_may_go_on() {
    let reply = denial(require_auth(None, Some("Bearer x")));
    assert_eq!(reply.status, 500);
    assert_eq!(reply.code, "INTERNAL_ERROR");
    assert_eq!(reply.message, "Auth not configured");
    assert!(!reply.retry);
}

#[test]
fn errors_are_answered() {
    for (error, status, code, retry) in [
        (AppError::NotFound("m".into()), 404, "NOT_FOUND", false),
        (AppError::BadRequest("m".into()), 400, "BAD_REQUEST", false),
        (AppError::Conflict("m".into()), 409, "CONFLICT", true),
        (AppError::Unauthorized("m".into()), 401, "UNAUTHORIZED", false),
        (AppError::Internal("m".into()), 500, "INTERNAL_ERROR", true),
    ] {
        assert_eq!(error.status(), status);
        assert_eq!(error.code(), code);
        assert_eq!(error.retry(), retry);
        assert_eq!(error.message(), "m");
        assert_eq!(error.to_text(), format!("{code}: m"));
        let reply = error.reply();
        let expected = Value::Object(vec![(
            "error".into(),
            Value::Object(vec![
                ("code".into(), Value::String(code.into())),
                ("message".into(), Value::String("m".into())),
                ("retry".into(), Value::Bool(retry)),
            ]),
        )]);
        assert!(values_equal(&reply.body(), &expected));
    }
    assert_eq!(AppError::database("x").message(), "Database error: x");
    assert_eq!(AppError::serialization("x").message(), "Serialization error: x");
}

fn source(url: &str, key: &str) -> TokenSource {
    TokenSource { platform_api_url: url.into(), platform_api_key: key.into() }
}

fn start() -> TokenSearch {
    let (search, step) = get_or_create("t1", source("http://platform", "secret"));
    assert!(matches!(step, TokenStep::LookInCache));
    search
}

#[test]
fn tokens_are_found_in_memory() {
    let mut search = start();
    let step = search.resume(Some("tok".into()));
    assert!(matches!(step, TokenStep::Done(Some(t)) if t == "tok"));
}

#[test]
fn tokens_are_found_in_the_database() {
    let mut search = start();
    assert!(matches!(search.resume(None), TokenStep::LookInDatabase));
    let step = search.resume(Some("tok".into()));
    assert!(matches!(step, TokenStep::Keep { token, in_database: false } if token == "tok"));
    assert!(matches!(search.resume(None), TokenStep::Done(Some(t)) if t == "tok"));
}

#[test]
fn tokens_are_provisioned() {
    let mut search = start();
    search.resume(None);
    match search.resume(None) {
        TokenStep::Provision(request) => {
            assert_eq!(request.url, "http://platform/internal/ingest-tokens");
            assert_eq!(request.authorization, "Bearer secret");
            let expected =
                Value::Object(vec![("key_prefix".into(), Value::String("t1".into()))]);
            assert!(values_equal(&request.body, &expected));
        }
        other => panic!("{other:?}"),
    }
    let step = search.resume(Some("new".into()));
    assert!(matches!(step, TokenStep::Keep { token, in_database: true } if token == "new"));
    assert!(matches!(search.resume(None), TokenStep::Done(Some(t)) if t == "new"));
}

#[test]
fn a_failed_provision_gives_no_token() {
    let mut search = start();
    search.resume(None);
    search.resume(None);
    assert!(matches!(search.resume(None), TokenStep::Done(None)));
    assert!(matches!(search.resume(None), TokenStep::Done(None)));
}

#[test]
fn without_a_platform_no_token_is_provisioned() {
    for (url, key) in [("", "secret"), ("http://platform", ""), ("", "")] {
        let (mut search, _) = get_or_create("t1", source(url, key));
        search.resume(None);
        assert!(matches!(search.resume(None), TokenStep::Done(None)));
    }
}

#[test]
fn tokens_are_cached() {
    let mut cache = TokenCache::new();
    assert!(cache.get("t1").is_none());
    cache.insert("t1", "a");
    cache.insert("t2", "b");
    cache.insert("t1", "c");
    assert_eq!(cache.get("t1").as_deref(), Some("c"));
    assert_eq!(cache.get("t2").as_deref(), Some("b"));
}

#[test]
fn local_databases_are_told_from_remote_ones() {
    for url in ["file:statemachine.db", "/var/db", ":memory:", "file:"] {
        assert!(is_local_database(url), "{url}");
    }
    for url in ["libsql://x.turso.io", "https://x", "", ":memory", "statemachine.db", "File:x"] {
        assert!(!is_local_database(url), "{url}");
    }
}
