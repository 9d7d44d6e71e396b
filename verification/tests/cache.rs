use backlog_sync::db::Db;
use backlog_sync::models::{IssueDetail, IssueSummary, Project};

const NOW: &str = "2026-02-01T00:00:00Z";

fn summary(key: &str, text: &str, updated: &str) -> IssueSummary {
    IssueSummary {
        issue_key: key.to_string(),
        summary: text.to_string(),
        updated_at: updated.to_string(),
    }
}

fn detail(key: &str, text: &str, raw: &str, md: &str, updated: &str) -> IssueDetail {
    IssueDetail {
        issue_key: key.to_string(),
        summary: text.to_string(),
        description_raw: raw.to_string(),
        description_md: md.to_string(),
        updated_at: updated.to_string(),
        synced_at: String::new(),
    }
}

#[test]
fn upsert_and_search_issue_summary() {
    let mut db = Db::new();

    db.upsert_issue_summary(
        &IssueSummary {
            issue_key: "PROJ-1".to_string(),
            summary: "hello world".to_string(),
            updated_at: "2026-01-01T00:00:00Z".to_string(),
        },
        NOW,
    );

    let found = db.search_issue_summaries_local("hello");
    assert_eq!(found.len(), 1);
    assert_eq!(found[0].issue_key, "PROJ-1");
}

#[test]
fn search_matches_key_or_summary_newest_first() {
    let mut db = Db::new();
    db.upsert_issue_summary(&summary("AB-1", "older entry", "2026-01-01T00:00:00Z"), NOW);
    db.upsert_issue_summary(&summary("AB-2", "newer entry", "2026-01-05T00:00:00Z"), NOW);
    db.upsert_issue_summary(&summary("XY-9", "unrelated", "2026-01-03T00:00:00Z"), NOW);

    let by_key = db.search_issue_summaries_local("AB-");
    assert_eq!(by_key.len(), 2);
    assert_eq!(by_key[0].issue_key, "AB-2");
    assert_eq!(by_key[1].issue_key, "AB-1");

    let by_text = db.search_issue_summaries_local("entry");
    assert_eq!(by_text.len(), 2);
    let none = db.search_issue_summaries_local("missing");
    assert!(none.is_empty());
}

#[test]
fn summary_upsert_keeps_stored_descriptions() {
    let mut db = Db::new();
    db.upsert_issue_detail(&detail("K-1", "first", "h1. T", "# T", "2026-01-01T00:00:00Z"), NOW);
    db.upsert_issue_summary(&summary("K-1", "renamed", "2026-01-02T00:00:00Z"), NOW);

    let got = db.get_issue_detail_local("K-1").expect("record exists");
    assert_eq!(got.summary, "renamed");
    assert_eq!(got.description_raw, "h1. T");
    assert_eq!(got.description_md, "# T");
    assert_eq!(got.updated_at, "2026-01-02T00:00:00Z");
}

#[test]
fn detail_upsert_stamps_synced_at() {
    let mut db = Db::new();
    db.upsert_issue_detail(&detail("K-2", "s", "", "", "2026-01-01T00:00:00Z"), NOW);
    let got = db.get_issue_detail_local("K-2").expect("record exists");
    assert_eq!(got.synced_at, NOW);
    assert!(db.get_issue_detail_local("K-404").is_none());
}

#[test]
fn projects_are_upserted_by_id_and_listed_by_key() {
    let mut db = Db::new();
    let batch = vec![
        Project { id: 2, project_key: "ZZ".into(), name: "Zeta".into(), synced_at: String::new() },
        Project { id: 1, project_key: "AA".into(), name: "Alpha".into(), synced_at: String::new() },
    ];
    db.upsert_projects(&batch, NOW);

    let listed = db.list_projects();
    assert_eq!(listed.len(), 2);
    assert_eq!(listed[0].project_key, "AA");
    assert_eq!(listed[1].project_key, "ZZ");
    assert_eq!(listed[0].synced_at, NOW);

    // the same id replaces the record wholesale
    let renamed = vec![Project {
        id: 2,
        project_key: "ZR".into(),
        name: "Zeta Renamed".into(),
        synced_at: String::new(),
    }];
    db.upsert_projects(&renamed, "2026-02-02T00:00:00Z");
    let listed = db.list_projects();
    assert_eq!(listed.len(), 2);
    assert_eq!(listed[1].project_key, "ZR");
    assert_eq!(listed[1].synced_at, "2026-02-02T00:00:00Z");
}

#[test]
fn export_history_is_append_only_and_limited() {
    let mut db = Db::new();
    db.insert_export_history("K-1", "/tmp/K-1.md", "2026-01-01T00:00:00Z");
    db.insert_export_history("K-2", "/tmp/K-2.md", "2026-01-03T00:00:00Z");
    db.insert_export_history("K-3", "/tmp/K-3.md", "2026-01-02T00:00:00Z");

    let err = db.list_exports(0).expect_err("limit must be positive");
    assert!(err.message().contains("limit must be > 0"));

    let newest = db.list_exports(2).expect("positive limit");
    assert_eq!(newest.len(), 2);
    assert_eq!(newest[0].issue_key, "K-2");
    assert_eq!(newest[1].issue_key, "K-3");

    let all = db.list_exports(10).expect("positive limit");
    assert_eq!(all.len(), 3);
    // identifiers were assigned in insertion order and never reused
    assert_eq!(all[0].id, 2);
    assert_eq!(all[1].id, 3);
    assert_eq!(all[2].id, 1);

    db.clear_exports();
    assert!(db.list_exports(10).expect("positive limit").is_empty());
    db.insert_export_history("K-4", "/tmp/K-4.md", "2026-01-04T00:00:00Z");
    let after = db.list_exports(10).expect("positive limit");
    assert_eq!(after[0].id, 4);
}

#[test]
fn settings_rows_round_trip() {
    let mut db = Db::new();
    assert!(db.load_space_url().is_none());
    db.save_space_url("https://space.example");
    assert_eq!(db.load_space_url().as_deref(), Some("https://space.example"));
    db.clear_space_url();
    assert!(db.load_space_url().is_none());

    assert!(!db.load_api_key_configured_marker());
    db.save_api_key_configured_marker(true);
    assert!(db.load_api_key_configured_marker());
    db.clear_api_key_configured_marker();
    assert!(!db.load_api_key_configured_marker());

    db.save_export_dir("/exports");
    assert_eq!(db.load_export_dir().as_deref(), Some("/exports"));
    db.clear_export_dir();
    assert!(db.load_export_dir().is_none());
}
