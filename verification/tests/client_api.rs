use backlog_sync::client::{to_detail, BacklogClient, BacklogIssue, BacklogProject};
use backlog_sync::client::{projects_from_wire, summaries_from_wire};
use backlog_sync::errors::AppError;

const NOW: &str = "2026-02-01T00:00:00Z";

#[test]
fn client_requires_non_blank_configuration() {
    let err = BacklogClient::new("   ", "key").expect_err("blank URL");
    match err {
        AppError::Validation(msg) => assert_eq!(msg, "space URL is required"),
        other => panic!("unexpected error: {:?}", other),
    }
    let err = BacklogClient::new("https://x", "  ").expect_err("blank key");
    match err {
        AppError::Validation(msg) => assert_eq!(msg, "API key is required"),
        other => panic!("unexpected error: {:?}", other),
    }
}

#[test]
fn client_normalizes_base_url() {
    let c = BacklogClient::new("  https://space.example///  ", " secret ").expect("valid");
    assert_eq!(c.base_url, "https://space.example");
    assert_eq!(c.api_key, "secret");
}

#[test]
fn urls_carry_the_encoded_credential() {
    let c = BacklogClient::new("https://space.example", "se cret+x").expect("valid");
    // the credential is percent-encoded into the query parameter
    assert_eq!(
        c.verify_url(),
        "https://space.example/api/v2/users/myself?apiKey=se%20cret%2Bx"
    );
    assert_eq!(c.projects_url(), "https://space.example/api/v2/projects?apiKey=se%20cret%2Bx");
    assert_eq!(
        c.issue_url("PROJ-1"),
        "https://space.example/api/v2/issues/PROJ-1?apiKey=se%20cret%2Bx"
    );
}

#[test]
fn search_url_encodes_the_trimmed_keyword() {
    let c = BacklogClient::new("https://space.example", "k").expect("valid");
    // the path already has a query string, so the credential joins with `&`
    assert_eq!(
        c.search_url("  two words "),
        "https://space.example/api/v2/issues?keyword=two%20words&apiKey=k"
    );
}

#[test]
fn detail_derives_markdown_and_stamps_sync_time() {
    let issue = BacklogIssue {
        issue_key: "K-1".to_string(),
        summary: "s".to_string(),
        description: Some("h1. Title\n* item".to_string()),
        updated: "2026-01-01T00:00:00Z".to_string(),
    };
    let d = to_detail(issue, NOW);
    assert_eq!(d.description_raw, "h1. Title\n* item");
    assert_eq!(d.description_md, "# Title\n- item");
    assert_eq!(d.synced_at, NOW);
    assert_eq!(d.updated_at, "2026-01-01T00:00:00Z");

    let missing = BacklogIssue {
        issue_key: "K-2".to_string(),
        summary: "s".to_string(),
        description: None,
        updated: "2026-01-01T00:00:00Z".to_string(),
    };
    let d = to_detail(missing, NOW);
    assert_eq!(d.description_raw, "");
    assert_eq!(d.description_md, "");
}

#[test]
fn wire_lists_convert_field_for_field() {
    let projects = projects_from_wire(
        vec![BacklogProject { id: 7, project_key: "PK".into(), name: "Name".into() }],
        NOW,
    );
    assert_eq!(projects.len(), 1);
    assert_eq!(projects[0].id, 7);
    assert_eq!(projects[0].project_key, "PK");
    assert_eq!(projects[0].synced_at, NOW);

    let summaries = summaries_from_wire(vec![BacklogIssue {
        issue_key: "K-1".into(),
        summary: "s".into(),
        description: None,
        updated: "2026-01-01T00:00:00Z".into(),
    }]);
    assert_eq!(summaries.len(), 1);
    assert_eq!(summaries[0].issue_key, "K-1");
    assert_eq!(summaries[0].updated_at, "2026-01-01T00:00:00Z");
}

#[test]
fn error_payloads_carry_code_message_and_recoverability() {
    let p = AppError::AuthInvalid.payload();
    assert_eq!(p.code, "AUTH_INVALID");
    assert_eq!(p.message, "authentication failed");
    assert!(p.recoverable);

    let p = AppError::Network("offline".to_string()).payload();
    assert_eq!(p.code, "NETWORK");
    assert_eq!(p.message, "network error: offline");
    assert!(p.recoverable);

    let p = AppError::Validation("bad input".to_string()).payload();
    assert_eq!(p.code, "UNKNOWN");
    assert_eq!(p.message, "validation error: bad input");
    assert!(!p.recoverable);

    let p = AppError::Db("disk full".to_string()).payload();
    assert_eq!(p.code, "UNKNOWN");
    assert!(!p.recoverable);
}

#[test]
fn errors_serialize_to_the_uniform_envelope() {
    assert_eq!(
        AppError::AuthInvalid.to_json(),
        "{\"code\":\"AUTH_INVALID\",\"message\":\"authentication failed\",\"recoverable\":true}"
    );
    assert_eq!(
        AppError::Unknown("say \"hi\"\\\n".to_string()).to_json(),
        "{\"code\":\"UNKNOWN\",\"message\":\"unknown error: say \\\"hi\\\"\\\\\\n\",\"recoverable\":false}"
    );
}
