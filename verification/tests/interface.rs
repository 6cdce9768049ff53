use rdf_diff_store::api::{
    validate_api_key, ApiKey, DeleteGraphQueryParams, SparqlQueryParams, UpdateGraphQueryParams,
};
use rdf_diff_store::error::{
    Error, GitError, GitErrorClass, GitErrorCode, INTERNAL_SERVER_ERROR, UNAUTHORIZED,
};
use rdf_diff_store::metrics::{cache_level_label, observes_request, CACHE_LEVEL_HEADER};
use rdf_diff_store::models::{Graph, Metadata};
use rdf_diff_store::rdf::parse_turtle_bulk;
use rdf_diff_store::text::{chars_of, ends_with, same_text, starts_with};

#[test]
fn the_right_key_is_let_through() {
    assert!(validate_api_key(&ApiKey::Token("secret".to_string()), "secret").is_ok());
    assert!(validate_api_key(&ApiKey::Token("".to_string()), "").is_ok());
}

#[test]
fn every_other_key_is_unauthorized() {
    let reason = |header: ApiKey| match validate_api_key(&header, "secret") {
        Err(Error::Unauthorized(reason)) => reason,
        other => panic!("unexpected {:?}", other),
    };
    assert_eq!(reason(ApiKey::Missing), "X-API-KEY header missing");
    assert_eq!(reason(ApiKey::Unreadable), "invalid api key");
    assert_eq!(reason(ApiKey::Token("Secret".to_string())), "incorrect api key");
    assert_eq!(reason(ApiKey::Token("secret ".to_string())), "incorrect api key");
    assert_eq!(reason(ApiKey::Token("".to_string())), "incorrect api key");
}

#[test]
fn error_texts() {
    assert_eq!(Error::String("plain".to_string()).message(), "plain");
    assert_eq!(
        Error::Unauthorized("incorrect api key".to_string()).message(),
        "Unauthorized: incorrect api key"
    );
    assert_eq!(Error::NonFastForward.message(), "Not able to fast-forward repo.");
    assert_eq!(
        Error::OutOfOrder { timestamp: 5, latest: 9 }.message(),
        "timestamp 5 is older than the latest commit at 9"
    );
    assert_eq!(
        Error::TimestampMismatch { timestamp: 5, found: 0 }.message(),
        "commit message carries timestamp 0 in place of 5"
    );
    let git = GitError {
        class: GitErrorClass::Other,
        code: GitErrorCode::Other,
        message: "remote hung up".to_string(),
    };
    assert_eq!(Error::GitError(git).message(), "remote hung up");
    match parse_turtle_bulk("no turtle") {
        Err(e) => assert!(!e.message().is_empty()),
        Ok(_) => panic!("this is no turtle"),
    }
    match String::from_utf8(vec![0xff]) {
        Err(e) => assert_eq!(Error::FromUtf8Error(e).message(), "invalid utf-8 sequence of 1 bytes from index 0"),
        Ok(_) => panic!("this is no text"),
    }
}

#[test]
fn error_responses() {
    let denied = Error::Unauthorized("X-API-KEY header missing".to_string()).error_response();
    assert_eq!(denied.status, 401);
    assert_eq!(denied.status, UNAUTHORIZED);
    assert_eq!(
        denied.body.message.as_deref(),
        Some("Unauthorized: X-API-KEY header missing")
    );
    assert_eq!(denied.body.error, None);

    let failed = Error::NonFastForward.error_response();
    assert_eq!(failed.status, 500);
    assert_eq!(failed.status, INTERNAL_SERVER_ERROR);
    assert_eq!(failed.body.message, None);
    assert_eq!(failed.body.error.as_deref(), Some("Not able to fast-forward repo."));

    let plain = Error::String("filename err".to_string()).error_response();
    assert_eq!(plain.status, 500);
    assert_eq!(plain.body.error.as_deref(), Some("filename err"));
}

#[test]
fn observed_requests() {
    assert!(observes_request("/api/sparql/5", 200));
    assert!(observes_request("/api", 500));
    assert!(observes_request("/apiary", 401));
    assert!(!observes_request("/api/graphs", 404));
    assert!(!observes_request("/livez", 200));
    assert!(!observes_request("/ap", 200));
    assert!(!observes_request("", 200));
    assert!(!observes_request("api/graphs", 200));
    assert!(!observes_request("/API/graphs", 200));
    assert_eq!(CACHE_LEVEL_HEADER, "Cache-Level");
    assert_eq!(cache_level_label(Some("Query".to_string())), "Query");
    assert_eq!(cache_level_label(None), "");
}

#[test]
fn plain_values() {
    let metadata = Metadata::new();
    assert_eq!(metadata.start_time, None);
    assert_eq!(metadata.end_time, None);
    assert_eq!(metadata, Metadata::default());
    assert_ne!(metadata, Metadata { start_time: Some(1), end_time: None });
    assert_eq!(Graph::default().id, "");
    assert_eq!(rdf_diff_store::models::Error::default().message, None);
    let update = UpdateGraphQueryParams { timestamp: 5 };
    assert_eq!(update.timestamp, 5);
    let delete = DeleteGraphQueryParams { id: "a".to_string(), timestamp: 6 };
    assert_eq!((delete.id.as_str(), delete.timestamp), ("a", 6));
    let sparql = SparqlQueryParams { query: "ASK {}".to_string() };
    assert_eq!(sparql.query, "ASK {}");
    let graph = Graph { id: "a".to_string(), graph: "".to_string(), format: None };
    assert_eq!(graph.id, "a");
}

#[test]
fn text_helpers() {
    assert_eq!(chars_of("aé\u{1F600}"), vec!['a', 'é', '\u{1F600}']);
    assert!(same_text("", ""));
    assert!(same_text("abc", "abc"));
    assert!(!same_text("abc", "abd"));
    assert!(!same_text("abc", "ab"));
    assert!(ends_with("a.ttl", ".ttl"));
    assert!(ends_with(".ttl", ".ttl"));
    assert!(ends_with("x", ""));
    assert!(!ends_with("ttl", ".ttl"));
    assert!(!ends_with("a.ttl ", ".ttl"));
    assert!(starts_with("/api/x", "/api"));
    assert!(starts_with("/api", "/api"));
    assert!(starts_with("x", ""));
    assert!(!starts_with("/ap", "/api"));
    assert!(!starts_with(" /api", "/api"));
}
