use vstd::prelude::*;

use crate::db::{
    issues_view, local_search_result, stamp_detail, summaries_view, summary_matches, summary_of,
    upsert_detail_seq, upsert_projects_seq, upsert_summaries_seq, projects_view, Db,
};
use crate::errors::{AppError, AppErrorV};
use crate::models::{IssueDetail, IssueSummary, Project, SetupState};
use crate::strutil::{chars_of, dec_rep, dec_string, lex_le, string_of, trim_chars, trim_ws};

verus! {

// ---------------------------------------------------------------------------
// The shared credential slot
// ---------------------------------------------------------------------------

/// The single-slot credential cache the command layer shares. The caller
/// guards concurrent access; this model is the slot itself.
pub struct AppState {
    pub api_key_cache: Option<String>,
}

/// A stored credential counts only when it is non-blank after trimming.
pub open spec fn usable_key(o: Option<String>) -> bool {
    o matches Some(k) && trim_ws(k@).len() > 0
}

impl AppState {
    /// A fresh state: nothing cached yet.
    pub fn new() -> (s: AppState)
        ensures
            s.api_key_cache is None,
    {
        AppState { api_key_cache: None }
    }

    /// Whether resolving a credential would have to consult the store:
    /// exactly when the cache is empty.
    pub fn needs_keychain_load(&self) -> (r: bool)
        ensures
            r == (self.api_key_cache is None),
    {
        match &self.api_key_cache {
            Some(_) => false,
            None => true,
        }
    }
}

fn is_blank(s: &str) -> (r: bool)
    ensures
        r == (trim_ws(s@).len() == 0),
{
    let v = chars_of(s);
    let t = trim_chars(&v);
    t.len() == 0
}

/// Select the credential to use: a usable cached value wins, then a
/// usable loaded value; blank values never count as configured.
pub fn pick_api_key(cached: Option<String>, loaded: Option<String>) -> (r: Result<String, AppError>)
    ensures
        usable_key(cached) ==> (r matches Ok(v) && Some(v) == cached),
        !usable_key(cached) && usable_key(loaded) ==> (r matches Ok(v) && Some(v) == loaded),
        !usable_key(cached) && !usable_key(loaded) ==> (r matches Err(e) && e@
            == AppErrorV::Keychain("API key is not configured in Keychain"@)),
{
    if let Some(key) = cached {
        if !is_blank(key.as_str()) {
            return Ok(key);
        }
    }
    if let Some(key) = loaded {
        if !is_blank(key.as_str()) {
            return Ok(key);
        }
    }
    Err(AppError::Keychain("API key is not configured in Keychain".to_owned()))
}

/// Resolve the credential against the shared slot. A cached value is
/// used as it stands and the store's answer is not consulted; on a cache
/// miss the loaded value is selected and, when usable, cached for every
/// later call.
pub fn resolve_api_key(state: &mut AppState, loaded: Option<String>) -> (r: Result<String, AppError>)
    ensures
        (old(state).api_key_cache matches Some(k) ==> {
            &&& *final(state) == *old(state)
            &&& (trim_ws(k@).len() > 0 ==> (r matches Ok(v) && v == k))
            &&& (trim_ws(k@).len() == 0 ==> (r matches Err(e) && e@ == AppErrorV::Keychain(
                "API key is not configured in Keychain"@,
            )))
        }),
        (old(state).api_key_cache is None ==> {
            &&& (usable_key(loaded) ==> (r matches Ok(v) && Some(v) == loaded
                && final(state).api_key_cache == Some(v)))
            &&& (!usable_key(loaded) ==> (r matches Err(e) && e@ == AppErrorV::Keychain(
                "API key is not configured in Keychain"@,
            ) && *final(state) == *old(state)))
        }),
{
    match &state.api_key_cache {
        Some(key) => pick_api_key(Some(key.clone()), None),
        None => {
            let picked = pick_api_key(None, loaded);
            match picked {
                Ok(v) => {
                    state.api_key_cache = Some(v.clone());
                    Ok(v)
                },
                Err(e) => Err(e),
            }
        },
    }
}

// ---------------------------------------------------------------------------
// The online-first-with-fallback policy
// ---------------------------------------------------------------------------

/// The failure kinds that route to the local cache: the request was
/// sound, only the network was not.
pub open spec fn spec_fallback_eligible(e: AppErrorV) -> bool {
    e matches AppErrorV::Network(_) || e == AppErrorV::RateLimit
}

pub fn is_fallback_eligible(e: &AppError) -> (r: bool)
    ensures
        r == spec_fallback_eligible(e@),
{
    match e {
        AppError::Network(_) => true,
        AppError::RateLimit => true,
        _ => false,
    }
}

/// Fetch one issue online-first. A successful remote record is written
/// through to the cache and returned as it came. On a network-transient
/// or rate-limit failure the cache is read instead, and only a cached
/// record turns the failure into success; any other failure, or a cache
/// miss, surfaces the remote error untouched.
pub fn fetch_detail_online_first(
    db: &mut Db,
    issue_key: &str,
    remote: Result<IssueDetail, AppError>,
    now: &str,
) -> (r: Result<IssueDetail, AppError>)
    requires
        old(db).wf(),
    ensures
        final(db).wf(),
        (remote matches Ok(d) ==> {
            &&& issues_view(final(db).issues@) == upsert_detail_seq(
                issues_view(old(db).issues@),
                stamp_detail(d@, now@),
            )
            &&& final(db).projects == old(db).projects
            &&& final(db).exports == old(db).exports
            &&& final(db).next_export_id == old(db).next_export_id
            &&& Db::same_settings(final(db), old(db))
            &&& r == remote
        }),
        (remote matches Err(e) ==> {
            &&& *final(db) == *old(db)
            &&& (spec_fallback_eligible(e@) ==> {
                let f = crate::db::find_issue_idx(issues_view(old(db).issues@), issue_key@);
                &&& (f >= 0 ==> (r matches Ok(d2) && d2 == old(db).issues@[f]))
                &&& (f < 0 ==> r == remote)
            })
            &&& (!spec_fallback_eligible(e@) ==> r == remote)
        }),
{
    match remote {
        Ok(detail) => {
            db.upsert_issue_detail(&detail, now);
            Ok(detail)
        },
        Err(e) => {
            if is_fallback_eligible(&e) {
                match db.get_issue_detail_local(issue_key) {
                    Some(d) => Ok(d),
                    None => Err(e),
                }
            } else {
                Err(e)
            }
        },
    }
}

/// One whole get-detail command against the live clock: the requested
/// key is trimmed, the write time is read here, and the online-first
/// policy of `fetch_detail_online_first` decides everything else. The
/// stamp itself is whatever the clock answered; all other behaviour is
/// pinned exactly.
pub fn issue_get_detail(db: &mut Db, issue_key: &str, remote: Result<IssueDetail, AppError>) -> (r:
    Result<IssueDetail, AppError>)
    requires
        old(db).wf(),
    ensures
        final(db).wf(),
        (remote matches Ok(d) ==> {
            &&& exists|now: Seq<char>|
                issues_view(final(db).issues@) == upsert_detail_seq(
                    issues_view(old(db).issues@),
                    stamp_detail(d@, now),
                )
            &&& final(db).projects == old(db).projects
            &&& final(db).exports == old(db).exports
            &&& final(db).next_export_id == old(db).next_export_id
            &&& Db::same_settings(final(db), old(db))
            &&& r == remote
        }),
        (remote matches Err(e) ==> {
            &&& *final(db) == *old(db)
            &&& (spec_fallback_eligible(e@) ==> {
                let f = crate::db::find_issue_idx(
                    issues_view(old(db).issues@),
                    trim_ws(issue_key@),
                );
                &&& (f >= 0 ==> (r matches Ok(d2) && d2 == old(db).issues@[f]))
                &&& (f < 0 ==> r == remote)
            })
            &&& (!spec_fallback_eligible(e@) ==> r == remote)
        }),
{
    let key_chars = chars_of(issue_key);
    let key_trimmed = trim_chars(&key_chars);
    let key = string_of(&key_trimmed);
    let now = crate::client::now_rfc3339();
    fetch_detail_online_first(db, key.as_str(), remote, now.as_str())
}

/// Search by exact key online-first. A successful remote fetch is
/// written through and answered as a single-row result; a qualifying
/// failure falls back to the local substring search, where an empty
/// answer re-raises the remote error rather than posing as success.
pub fn issues_search_by_key(
    db: &mut Db,
    issue_key: &str,
    remote: Result<IssueDetail, AppError>,
    now: &str,
) -> (r: Result<Vec<IssueSummary>, AppError>)
    requires
        old(db).wf(),
    ensures
        final(db).wf(),
        (remote matches Ok(d) ==> {
            &&& issues_view(final(db).issues@) == upsert_detail_seq(
                issues_view(old(db).issues@),
                stamp_detail(d@, now@),
            )
            &&& final(db).projects == old(db).projects
            &&& final(db).exports == old(db).exports
            &&& final(db).next_export_id == old(db).next_export_id
            &&& Db::same_settings(final(db), old(db))
            &&& (r matches Ok(v) && v@.len() == 1 && v@[0] == summary_of(d))
        }),
        (remote matches Err(e) ==> {
            &&& *final(db) == *old(db)
            &&& (spec_fallback_eligible(e@) ==> {
                &&& (r matches Ok(v) ==> local_search_result(old(db).issues@, issue_key@, v@)
                    && v@.len() > 0)
                &&& (r matches Err(e2) ==> e2 == e && old(db).issues@.map_values(
                    |d: IssueDetail| summary_of(d),
                ).filter(|s: IssueSummary| summary_matches(s, issue_key@)).len() == 0)
            })
            &&& (!spec_fallback_eligible(e@) ==> (r matches Err(e2) && e2 == e))
        }),
{
    match remote {
        Ok(detail) => {
            let summary = IssueSummary {
                issue_key: detail.issue_key.clone(),
                summary: detail.summary.clone(),
                updated_at: detail.updated_at.clone(),
            };
            proof {
                assert(summary == summary_of(detail));
            }
            db.upsert_issue_detail(&detail, now);
            let mut out: Vec<IssueSummary> = Vec::new();
            out.push(summary);
            Ok(out)
        },
        Err(e) => {
            if is_fallback_eligible(&e) {
                let fallback = db.search_issue_summaries_local(issue_key);
                if fallback.len() == 0 {
                    proof {
                        fallback@.to_multiset_ensures();
                        db.issues@.map_values(|d: IssueDetail| summary_of(d)).filter(
                            |s: IssueSummary| summary_matches(s, issue_key@),
                        ).to_multiset_ensures();
                    }
                    Err(e)
                } else {
                    Ok(fallback)
                }
            } else {
                Err(e)
            }
        },
    }
}

/// Search by keyword online-first. Each remote row is written through as
/// a bare summary; a qualifying failure falls back to the local
/// substring search, and an empty answer re-raises the remote error.
pub fn issues_search_by_keyword(
    db: &mut Db,
    query: &str,
    remote: Result<Vec<IssueSummary>, AppError>,
    now: &str,
) -> (r: Result<Vec<IssueSummary>, AppError>)
    requires
        old(db).wf(),
    ensures
        final(db).wf(),
        (remote matches Ok(results) ==> {
            &&& issues_view(final(db).issues@) == upsert_summaries_seq(
                issues_view(old(db).issues@),
                summaries_view(results@),
                now@,
            )
            &&& final(db).projects == old(db).projects
            &&& final(db).exports == old(db).exports
            &&& final(db).next_export_id == old(db).next_export_id
            &&& Db::same_settings(final(db), old(db))
            &&& r == remote
        }),
        (remote matches Err(e) ==> {
            &&& *final(db) == *old(db)
            &&& (spec_fallback_eligible(e@) ==> {
                &&& (r matches Ok(v) ==> local_search_result(old(db).issues@, query@, v@)
                    && v@.len() > 0)
                &&& (r matches Err(e2) ==> e2 == e && old(db).issues@.map_values(
                    |d: IssueDetail| summary_of(d),
                ).filter(|s: IssueSummary| summary_matches(s, query@)).len() == 0)
            })
            &&& (!spec_fallback_eligible(e@) ==> (r matches Err(e2) && e2 == e))
        }),
{
    match remote {
        Ok(results) => {
            let ghost orig = issues_view(db.issues@);
            let ghost items = summaries_view(results@);
            let mut i: usize = 0;
            proof {
                assert(items.skip(0) =~= items);
            }
            while i < results.len()
                invariant
                    old(db).wf(),
                    db.wf(),
                    i <= results@.len(),
                    orig == issues_view(old(db).issues@),
                    items == summaries_view(results@),
                    upsert_summaries_seq(orig, items, now@) == upsert_summaries_seq(
                        issues_view(db.issues@),
                        items.skip(i as int),
                        now@,
                    ),
                    db.projects == old(db).projects,
                    db.exports == old(db).exports,
                    db.next_export_id == old(db).next_export_id,
                    Db::same_settings(db, old(db)),
                decreases results@.len() - i,
            {
                proof {
                    assert(items.skip(i as int)[0] == items[i as int]);
                    assert(items.skip(i as int).skip(1) =~= items.skip(i + 1));
                }
                db.upsert_issue_summary(&results[i], now);
                i += 1;
            }
            proof {
                assert(items.skip(i as int).len() == 0);
            }
            Ok(results)
        },
        Err(e) => {
            if is_fallback_eligible(&e) {
                let fallback = db.search_issue_summaries_local(query);
                if fallback.len() == 0 {
                    proof {
                        fallback@.to_multiset_ensures();
                        db.issues@.map_values(|d: IssueDetail| summary_of(d)).filter(
                            |s: IssueSummary| summary_matches(s, query@),
                        ).to_multiset_ensures();
                    }
                    Err(e)
                } else {
                    Ok(fallback)
                }
            } else {
                Err(e)
            }
        },
    }
}

/// Sync the project list. A successful fetch is upserted wholesale and
/// the freshly ordered cache contents are returned; a failure is
/// propagated untouched, with no fallback: a stale project list is not
/// answered in place of an error.
pub fn projects_sync(db: &mut Db, fetched: Result<Vec<Project>, AppError>, now: &str) -> (r: Result<
    Vec<Project>,
    AppError,
>)
    requires
        old(db).wf(),
    ensures
        final(db).wf(),
        (fetched matches Ok(ps) ==> {
            &&& projects_view(final(db).projects@) == upsert_projects_seq(
                projects_view(old(db).projects@),
                projects_view(ps@),
                now@,
            )
            &&& final(db).issues == old(db).issues
            &&& final(db).exports == old(db).exports
            &&& final(db).next_export_id == old(db).next_export_id
            &&& Db::same_settings(final(db), old(db))
            &&& (r matches Ok(v) && v@.to_multiset() == final(db).projects@.to_multiset()
                && forall|i: int, j: int|
                0 <= i < j < (r->Ok_0)@.len() ==> lex_le(
                    (r->Ok_0)@[i].project_key@,
                    (r->Ok_0)@[j].project_key@,
                ))
        }),
        (fetched matches Err(e) ==> *final(db) == *old(db) && r == fetched),
{
    match fetched {
        Ok(ps) => {
            db.upsert_projects(&ps, now);
            Ok(db.list_projects())
        },
        Err(e) => Err(e),
    }
}

// ---------------------------------------------------------------------------
// Setup, validation and export naming
// ---------------------------------------------------------------------------

/// What the setup screen learns from the stored pieces: the credential
/// counts as configured when the store answered with a value, or when
/// the configured marker stands in (also when the store failed).
pub fn assemble_setup_state(
    space_url: Option<String>,
    export_dir: Option<String>,
    configured_marker: bool,
    keychain_load: Result<Option<String>, AppError>,
) -> (s: SetupState)
    ensures
        s.space_url == space_url,
        s.export_dir == export_dir,
        s.has_api_key == match keychain_load {
            Ok(v) => v is Some || configured_marker,
            Err(_) => configured_marker,
        },
{
    let has_api_key = match &keychain_load {
        Ok(Some(_)) => true,
        Ok(None) => configured_marker,
        Err(_) => configured_marker,
    };
    SetupState { space_url, has_api_key, export_dir }
}

/// Record a verified setup: cache the trimmed credential and persist the
/// space URL and the configured marker.
pub fn record_setup(state: &mut AppState, db: &mut Db, space_url: &str, api_key: &str)
    requires
        old(db).wf(),
    ensures
        final(state).api_key_cache matches Some(k) && k@ == trim_ws(api_key@),
        final(db).space_url matches Some(u) && u@ == space_url@,
        final(db).api_key_configured,
        final(db).export_dir == old(db).export_dir,
        Db::same_records(final(db), old(db)),
        final(db).wf(),
{
    let key_chars = chars_of(api_key);
    let trimmed = trim_chars(&key_chars);
    state.api_key_cache = Some(string_of(&trimmed));
    db.save_space_url(space_url);
    db.save_api_key_configured_marker(true);
}

/// Forget the stored credential and configuration: the slot is emptied
/// and the marker, the space URL and the export directory are cleared.
pub fn reset_auth(state: &mut AppState, db: &mut Db)
    requires
        old(db).wf(),
    ensures
        final(state).api_key_cache is None,
        !final(db).api_key_configured,
        final(db).space_url is None,
        final(db).export_dir is None,
        Db::same_records(final(db), old(db)),
        final(db).wf(),
{
    state.api_key_cache = None;
    db.clear_api_key_configured_marker();
    db.clear_space_url();
    db.clear_export_dir();
}

/// A search keyword must be non-blank; the trimmed form is what goes to
/// the remote query and to the local fallback.
pub fn validate_keyword(keyword: &str) -> (r: Result<String, AppError>)
    ensures
        r is Err <==> trim_ws(keyword@).len() == 0,
        (r matches Err(e) ==> e@ == AppErrorV::Validation("keyword is required"@)),
        (r matches Ok(q) ==> q@ == trim_ws(keyword@)),
{
    let v = chars_of(keyword);
    let t = trim_chars(&v);
    if t.len() == 0 {
        Err(AppError::Validation("keyword is required".to_owned()))
    } else {
        Ok(string_of(&t))
    }
}

/// An export directory must be non-blank; the trimmed form is stored.
pub fn validate_export_dir(export_dir: &str) -> (r: Result<String, AppError>)
    ensures
        r is Err <==> trim_ws(export_dir@).len() == 0,
        (r matches Err(e) ==> e@ == AppErrorV::Validation("export directory is required"@)),
        (r matches Ok(q) ==> q@ == trim_ws(export_dir@)),
{
    let v = chars_of(export_dir);
    let t = trim_chars(&v);
    if t.len() == 0 {
        Err(AppError::Validation("export directory is required".to_owned()))
    } else {
        Ok(string_of(&t))
    }
}

/// The file name the export policy tries on its n-th attempt: the bare
/// key first, then `(1)` through `(9999)`, then the overflow marker.
pub open spec fn spec_export_file_name(key: Seq<char>, attempt: u32) -> Seq<char> {
    if attempt == 0 {
        key + ".md"@
    } else if attempt <= 9999 {
        key + "("@ + dec_rep(attempt as nat) + ").md"@
    } else {
        key + "(overflow).md"@
    }
}

/// The candidate file name for one attempt of the overwrite-or-rename
/// policy; the caller probes the file system and advances the attempt.
pub fn export_file_name(issue_key: &str, attempt: u32) -> (r: String)
    ensures
        r@ == spec_export_file_name(issue_key@, attempt),
{
    let mut name = issue_key.to_owned();
    if attempt == 0 {
        name.append(".md");
    } else if attempt <= 9999 {
        name.append("(");
        let num = dec_string(attempt as u64);
        name.append(num.as_str());
        name.append(").md");
    } else {
        name.append("(overflow).md");
    }
    name
}

} // verus!
