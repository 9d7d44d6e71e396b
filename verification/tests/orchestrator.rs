use backlog_sync::db::Db;
use backlog_sync::errors::AppError;
use backlog_sync::models::{IssueDetail, IssueSummary, Project};
use backlog_sync::sync::{
    assemble_setup_state, export_file_name, fetch_detail_online_first, issue_get_detail,
    issues_search_by_key, issues_search_by_keyword, projects_sync, record_setup, reset_auth,
    validate_export_dir, validate_keyword, AppState,
};

const NOW: &str = "2026-02-01T00:00:00Z";

fn cached_detail(key: &str) -> IssueDetail {
    IssueDetail {
        issue_key: key.to_string(),
        summary: "cached summary".to_string(),
        description_raw: "raw".to_string(),
        description_md: "raw".to_string(),
        updated_at: "2026-01-01T00:00:00Z".to_string(),
        synced_at: "2026-01-01T00:00:00Z".to_string(),
    }
}

#[test]
fn network_failure_with_cached_record_answers_from_cache() {
    let mut db = Db::new();
    db.upsert_issue_detail(&cached_detail("K-1"), NOW);

    let remote = Err(AppError::Network("connect timed out".to_string()));
    let got = fetch_detail_online_first(&mut db, "K-1", remote, NOW)
        .expect("cache should answer");
    assert_eq!(got.issue_key, "K-1");
    assert_eq!(got.summary, "cached summary");
}

#[test]
fn network_failure_with_empty_cache_keeps_the_error() {
    let mut db = Db::new();
    let remote = Err(AppError::Network("connect timed out".to_string()));
    let err = fetch_detail_online_first(&mut db, "K-1", remote, NOW)
        .expect_err("nothing cached: the original error survives");
    match err {
        AppError::Network(detail) => assert_eq!(detail, "connect timed out"),
        other => panic!("expected the original network error, got {:?}", other),
    }
}

#[test]
fn auth_failure_never_reads_the_cache() {
    let mut db = Db::new();
    db.upsert_issue_detail(&cached_detail("K-1"), NOW);

    let err = fetch_detail_online_first(&mut db, "K-1", Err(AppError::AuthInvalid), NOW)
        .expect_err("auth errors are propagated");
    assert!(matches!(err, AppError::AuthInvalid));
}

#[test]
fn successful_fetch_writes_through() {
    let mut db = Db::new();
    let fresh = IssueDetail {
        issue_key: "K-9".to_string(),
        summary: "fresh".to_string(),
        description_raw: "h1. T".to_string(),
        description_md: "# T".to_string(),
        updated_at: "2026-01-09T00:00:00Z".to_string(),
        synced_at: String::new(),
    };
    let got = fetch_detail_online_first(&mut db, "K-9", Ok(fresh), NOW)
        .expect("remote success");
    assert_eq!(got.issue_key, "K-9");
    let stored = db.get_issue_detail_local("K-9").expect("written through");
    assert_eq!(stored.summary, "fresh");
    assert_eq!(stored.synced_at, NOW);
}

#[test]
fn get_detail_trims_the_key_and_stamps_the_clock() {
    let mut db = Db::new();
    let fresh = IssueDetail {
        issue_key: "K-7".to_string(),
        summary: "fresh".to_string(),
        description_raw: String::new(),
        description_md: String::new(),
        updated_at: "2026-01-07T00:00:00Z".to_string(),
        synced_at: String::new(),
    };
    let got = issue_get_detail(&mut db, "  K-7  ", Ok(fresh)).expect("remote success");
    assert_eq!(got.issue_key, "K-7");
    let stored = db.get_issue_detail_local("K-7").expect("written through");
    // the write time comes from the live clock, not from the payload
    assert!(!stored.synced_at.is_empty());

    // the trimmed key drives the fallback lookup as well
    let err = issue_get_detail(&mut db, " NO-SUCH ", Err(AppError::RateLimit))
        .expect_err("miss re-raises");
    assert!(matches!(err, AppError::RateLimit));
    let hit = issue_get_detail(&mut db, " K-7 ", Err(AppError::RateLimit))
        .expect("cache answers");
    assert_eq!(hit.summary, "fresh");
}

#[test]
fn key_search_falls_back_to_substring_match() {
    let mut db = Db::new();
    db.upsert_issue_detail(&cached_detail("K-1"), NOW);

    let remote = Err(AppError::RateLimit);
    let rows = issues_search_by_key(&mut db, "K-1", remote, NOW).expect("fallback hit");
    assert_eq!(rows.len(), 1);
    assert_eq!(rows[0].issue_key, "K-1");

    let remote = Err(AppError::RateLimit);
    let err = issues_search_by_key(&mut db, "NO-MATCH", remote, NOW)
        .expect_err("fallback miss re-raises");
    assert!(matches!(err, AppError::RateLimit));
}

#[test]
fn keyword_search_success_upserts_each_row() {
    let mut db = Db::new();
    let rows = vec![
        IssueSummary {
            issue_key: "K-1".to_string(),
            summary: "alpha".to_string(),
            updated_at: "2026-01-01T00:00:00Z".to_string(),
        },
        IssueSummary {
            issue_key: "K-2".to_string(),
            summary: "beta".to_string(),
            updated_at: "2026-01-02T00:00:00Z".to_string(),
        },
    ];
    let got = issues_search_by_keyword(&mut db, "alpha", Ok(rows), NOW)
        .expect("remote success");
    assert_eq!(got.len(), 2);
    assert!(db.get_issue_detail_local("K-1").is_some());
    assert!(db.get_issue_detail_local("K-2").is_some());
}

#[test]
fn keyword_search_fallback_and_miss() {
    let mut db = Db::new();
    db.upsert_issue_summary(
        &IssueSummary {
            issue_key: "K-1".to_string(),
            summary: "alpha".to_string(),
            updated_at: "2026-01-01T00:00:00Z".to_string(),
        },
        NOW,
    );
    let hit = issues_search_by_keyword(
        &mut db,
        "alpha",
        Err(AppError::Network("offline".to_string())),
        NOW,
    )
    .expect("fallback hit");
    assert_eq!(hit.len(), 1);

    let err = issues_search_by_keyword(
        &mut db,
        "missing",
        Err(AppError::Network("offline".to_string())),
        NOW,
    )
    .expect_err("fallback miss re-raises");
    assert!(matches!(err, AppError::Network(_)));

    let err = issues_search_by_keyword(&mut db, "alpha", Err(AppError::Forbidden), NOW)
        .expect_err("forbidden is never masked by the cache");
    assert!(matches!(err, AppError::Forbidden));
}

#[test]
fn projects_sync_upserts_and_orders_without_fallback() {
    let mut db = Db::new();
    let fetched = vec![
        Project { id: 5, project_key: "BB".into(), name: "Beta".into(), synced_at: String::new() },
        Project { id: 4, project_key: "AA".into(), name: "Alpha".into(), synced_at: String::new() },
    ];
    let listed = projects_sync(&mut db, Ok(fetched), NOW).expect("remote success");
    assert_eq!(listed.len(), 2);
    assert_eq!(listed[0].project_key, "AA");

    let err = projects_sync(&mut db, Err(AppError::Network("offline".into())), NOW)
        .expect_err("no fallback for the project list");
    assert!(matches!(err, AppError::Network(_)));
    assert_eq!(db.list_projects().len(), 2);
}

#[test]
fn setup_state_reflects_store_and_marker() {
    let s = assemble_setup_state(Some("https://x".into()), None, false, Ok(Some("k".into())));
    assert!(s.has_api_key);
    assert_eq!(s.space_url.as_deref(), Some("https://x"));

    let s = assemble_setup_state(None, None, true, Ok(None));
    assert!(s.has_api_key);
    let s = assemble_setup_state(None, None, false, Ok(None));
    assert!(!s.has_api_key);
    let s = assemble_setup_state(None, None, true, Err(AppError::Keychain("locked".into())));
    assert!(s.has_api_key);
    let s = assemble_setup_state(None, None, false, Err(AppError::Keychain("locked".into())));
    assert!(!s.has_api_key);
}

#[test]
fn record_setup_then_reset_auth() {
    let mut state = AppState::new();
    let mut db = Db::new();
    record_setup(&mut state, &mut db, "https://space.example", "  key  ");
    assert_eq!(state.api_key_cache.as_deref(), Some("key"));
    assert_eq!(db.load_space_url().as_deref(), Some("https://space.example"));
    assert!(db.load_api_key_configured_marker());

    reset_auth(&mut state, &mut db);
    assert!(state.api_key_cache.is_none());
    assert!(db.load_space_url().is_none());
    assert!(!db.load_api_key_configured_marker());
    assert!(db.load_export_dir().is_none());
}

#[test]
fn keyword_and_export_dir_validation() {
    assert_eq!(validate_keyword("  term  ").expect("non-blank"), "term");
    let err = validate_keyword("   ").expect_err("blank keyword");
    assert!(err.message().contains("keyword is required"));

    assert_eq!(validate_export_dir(" /out ").expect("non-blank"), "/out");
    let err = validate_export_dir("").expect_err("blank directory");
    assert!(err.message().contains("export directory is required"));
}

#[test]
fn export_file_names_follow_the_rename_policy() {
    assert_eq!(export_file_name("K-1", 0), "K-1.md");
    assert_eq!(export_file_name("K-1", 1), "K-1(1).md");
    assert_eq!(export_file_name("K-1", 42), "K-1(42).md");
    assert_eq!(export_file_name("K-1", 9999), "K-1(9999).md");
    assert_eq!(export_file_name("K-1", 10000), "K-1(overflow).md");
}
