use vstd::prelude::*;

use crate::errors::{AppError, AppErrorV};
use crate::models::{
    ExportHistory, ExportHistoryV, IssueDetail, IssueDetailV, IssueSummary, IssueSummaryV, Project,
    ProjectV,
};
use crate::strutil::{chars_of, contains_tok, find_tok_from, lex_le, match_at, str_lex_le};
use vstd::multiset::Multiset;
use vstd::pervasive::VecAdditionalExecFns;

verus! {

// ---------------------------------------------------------------------------
// Views of the stored tables
// ---------------------------------------------------------------------------

pub open spec fn projects_view(s: Seq<Project>) -> Seq<ProjectV> {
    s.map_values(|p: Project| p@)
}

pub open spec fn issues_view(s: Seq<IssueDetail>) -> Seq<IssueDetailV> {
    s.map_values(|d: IssueDetail| d@)
}

pub open spec fn exports_view(s: Seq<ExportHistory>) -> Seq<ExportHistoryV> {
    s.map_values(|e: ExportHistory| e@)
}

/// The first position holding the project identity, or -1.
pub open spec fn find_project_idx(s: Seq<ProjectV>, id: int) -> int
    decreases s.len(),
{
    if s.len() == 0 {
        -1
    } else if s[0].id == id {
        0
    } else {
        let r = find_project_idx(s.skip(1), id);
        if r < 0 {
            -1
        } else {
            r + 1
        }
    }
}

/// The first position holding the issue identity, or -1.
pub open spec fn find_issue_idx(s: Seq<IssueDetailV>, key: Seq<char>) -> int
    decreases s.len(),
{
    if s.len() == 0 {
        -1
    } else if s[0].issue_key == key {
        0
    } else {
        let r = find_issue_idx(s.skip(1), key);
        if r < 0 {
            -1
        } else {
            r + 1
        }
    }
}

pub proof fn lemma_find_project_idx(s: Seq<ProjectV>, id: int)
    ensures
        find_project_idx(s, id) >= 0 ==> 0 <= find_project_idx(s, id) < s.len() && s[find_project_idx(
            s,
            id,
        )].id == id && forall|m: int| 0 <= m < find_project_idx(s, id) ==> s[m].id != id,
        find_project_idx(s, id) < 0 ==> forall|m: int| 0 <= m < s.len() ==> s[m].id != id,
    decreases s.len(),
{
    if s.len() > 0 && s[0].id != id {
        lemma_find_project_idx(s.skip(1), id);
        if find_project_idx(s, id) >= 0 {
            assert forall|m: int| 0 <= m < find_project_idx(s, id) implies s[m].id != id by {
                if m >= 1 {
                    assert(s[m] == s.skip(1)[m - 1]);
                }
            }
        } else {
            assert forall|m: int| 0 <= m < s.len() implies s[m].id != id by {
                if m >= 1 {
                    assert(s[m] == s.skip(1)[m - 1]);
                }
            }
        }
    }
}

pub proof fn lemma_find_issue_idx(s: Seq<IssueDetailV>, key: Seq<char>)
    ensures
        find_issue_idx(s, key) >= 0 ==> 0 <= find_issue_idx(s, key) < s.len() && s[find_issue_idx(
            s,
            key,
        )].issue_key == key && forall|m: int|
            0 <= m < find_issue_idx(s, key) ==> s[m].issue_key != key,
        find_issue_idx(s, key) < 0 ==> forall|m: int| 0 <= m < s.len() ==> s[m].issue_key != key,
    decreases s.len(),
{
    if s.len() > 0 && s[0].issue_key != key {
        lemma_find_issue_idx(s.skip(1), key);
        if find_issue_idx(s, key) >= 0 {
            assert forall|m: int| 0 <= m < find_issue_idx(s, key) implies s[m].issue_key != key by {
                if m >= 1 {
                    assert(s[m] == s.skip(1)[m - 1]);
                }
            }
        } else {
            assert forall|m: int| 0 <= m < s.len() implies s[m].issue_key != key by {
                if m >= 1 {
                    assert(s[m] == s.skip(1)[m - 1]);
                }
            }
        }
    }
}

// ---------------------------------------------------------------------------
// Upsert semantics
// ---------------------------------------------------------------------------

/// A project as it is written: `synced_at` is stamped by the writer.
pub open spec fn stamp_project(p: ProjectV, now: Seq<char>) -> ProjectV {
    ProjectV { synced_at: now, ..p }
}

/// Replace the record with the same identity, or append.
pub open spec fn upsert_project_seq(s: Seq<ProjectV>, p: ProjectV) -> Seq<ProjectV> {
    let i = find_project_idx(s, p.id);
    if i >= 0 {
        s.update(i, p)
    } else {
        s.push(p)
    }
}

/// Upsert a batch in order, stamping each with the same write time.
pub open spec fn upsert_projects_seq(s: Seq<ProjectV>, items: Seq<ProjectV>, now: Seq<char>) -> Seq<
    ProjectV,
>
    decreases items.len(),
{
    if items.len() == 0 {
        s
    } else {
        upsert_projects_seq(upsert_project_seq(s, stamp_project(items[0], now)), items.skip(1), now)
    }
}

/// A full issue record as it is written.
pub open spec fn stamp_detail(d: IssueDetailV, now: Seq<char>) -> IssueDetailV {
    IssueDetailV { synced_at: now, ..d }
}

/// What upserting a bare summary writes over an existing record: the
/// stored descriptions stay as they are.
pub open spec fn apply_summary(existing: IssueDetailV, s: IssueSummaryV, now: Seq<char>) -> IssueDetailV {
    IssueDetailV {
        issue_key: existing.issue_key,
        summary: s.summary,
        description_raw: existing.description_raw,
        description_md: existing.description_md,
        updated_at: s.updated_at,
        synced_at: now,
    }
}

/// What upserting a bare summary writes when no record exists yet: the
/// descriptions start empty.
pub open spec fn summary_as_new_detail(s: IssueSummaryV, now: Seq<char>) -> IssueDetailV {
    IssueDetailV {
        issue_key: s.issue_key,
        summary: s.summary,
        description_raw: Seq::<char>::empty(),
        description_md: Seq::<char>::empty(),
        updated_at: s.updated_at,
        synced_at: now,
    }
}

pub open spec fn upsert_detail_seq(s: Seq<IssueDetailV>, d: IssueDetailV) -> Seq<IssueDetailV> {
    let i = find_issue_idx(s, d.issue_key);
    if i >= 0 {
        s.update(i, d)
    } else {
        s.push(d)
    }
}

pub open spec fn upsert_summary_seq(
    s: Seq<IssueDetailV>,
    sum: IssueSummaryV,
    now: Seq<char>,
) -> Seq<IssueDetailV> {
    let i = find_issue_idx(s, sum.issue_key);
    if i >= 0 {
        s.update(i, apply_summary(s[i], sum, now))
    } else {
        s.push(summary_as_new_detail(sum, now))
    }
}

pub open spec fn summaries_view(s: Seq<IssueSummary>) -> Seq<IssueSummaryV> {
    s.map_values(|x: IssueSummary| x@)
}

/// Upsert a batch of search rows in order, with one write time.
pub open spec fn upsert_summaries_seq(
    s: Seq<IssueDetailV>,
    items: Seq<IssueSummaryV>,
    now: Seq<char>,
) -> Seq<IssueDetailV>
    decreases items.len(),
{
    if items.len() == 0 {
        s
    } else {
        upsert_summaries_seq(upsert_summary_seq(s, items[0], now), items.skip(1), now)
    }
}

/// What a local fallback search answers: exactly the matching rows, most
/// recently updated first.
pub open spec fn local_search_result(
    issues: Seq<IssueDetail>,
    kw: Seq<char>,
    v: Seq<IssueSummary>,
) -> bool {
    &&& v.to_multiset() == issues.map_values(|d: IssueDetail| summary_of(d)).filter(
        |s: IssueSummary| summary_matches(s, kw),
    ).to_multiset()
    &&& forall|i: int, j: int| 0 <= i < j < v.len() ==> lex_le(v[j].updated_at@, v[i].updated_at@)
}

// ---------------------------------------------------------------------------
// Well-formedness of the tables
// ---------------------------------------------------------------------------

pub open spec fn unique_project_ids(s: Seq<ProjectV>) -> bool {
    forall|i: int, j: int| 0 <= i < j < s.len() ==> s[i].id != s[j].id
}

pub open spec fn unique_issue_keys(s: Seq<IssueDetailV>) -> bool {
    forall|i: int, j: int| 0 <= i < j < s.len() ==> s[i].issue_key != s[j].issue_key
}

pub open spec fn exports_wf(s: Seq<ExportHistoryV>, next: int) -> bool {
    &&& forall|i: int, j: int| 0 <= i < j < s.len() ==> s[i].id != s[j].id
    &&& forall|i: int| 0 <= i < s.len() ==> s[i].id < next
}

proof fn lemma_upsert_project_unique(s: Seq<ProjectV>, p: ProjectV)
    requires
        unique_project_ids(s),
    ensures
        unique_project_ids(upsert_project_seq(s, p)),
{
    lemma_find_project_idx(s, p.id);
    let f = find_project_idx(s, p.id);
    if f >= 0 {
        let t = s.update(f, p);
        assert forall|i: int, j: int| 0 <= i < j < t.len() implies t[i].id != t[j].id by {
            if i != f && j != f {
                assert(t[i] == s[i] && t[j] == s[j]);
            } else if i == f {
                assert(t[i].id == s[f].id && t[j] == s[j]);
            } else {
                assert(t[j].id == s[f].id && t[i] == s[i]);
            }
        }
    } else {
        let t = s.push(p);
        assert forall|i: int, j: int| 0 <= i < j < t.len() implies t[i].id != t[j].id by {
            if j == s.len() {
                assert(t[i] == s[i] && t[j] == p);
            } else {
                assert(t[i] == s[i] && t[j] == s[j]);
            }
        }
    }
}

proof fn lemma_upsert_projects_unique(s: Seq<ProjectV>, items: Seq<ProjectV>, now: Seq<char>)
    requires
        unique_project_ids(s),
    ensures
        unique_project_ids(upsert_projects_seq(s, items, now)),
    decreases items.len(),
{
    if items.len() > 0 {
        lemma_upsert_project_unique(s, stamp_project(items[0], now));
        lemma_upsert_projects_unique(
            upsert_project_seq(s, stamp_project(items[0], now)),
            items.skip(1),
            now,
        );
    }
}

proof fn lemma_upsert_detail_unique(s: Seq<IssueDetailV>, d: IssueDetailV)
    requires
        unique_issue_keys(s),
    ensures
        unique_issue_keys(upsert_detail_seq(s, d)),
{
    lemma_find_issue_idx(s, d.issue_key);
    let f = find_issue_idx(s, d.issue_key);
    if f >= 0 {
        let t = s.update(f, d);
        assert forall|i: int, j: int| 0 <= i < j < t.len() implies t[i].issue_key
            != t[j].issue_key by {
            if i != f && j != f {
                assert(t[i] == s[i] && t[j] == s[j]);
            } else if i == f {
                assert(t[i].issue_key == s[f].issue_key && t[j] == s[j]);
            } else {
                assert(t[j].issue_key == s[f].issue_key && t[i] == s[i]);
            }
        }
    } else {
        let t = s.push(d);
        assert forall|i: int, j: int| 0 <= i < j < t.len() implies t[i].issue_key
            != t[j].issue_key by {
            if j == s.len() {
                assert(t[i] == s[i] && t[j] == d);
            } else {
                assert(t[i] == s[i] && t[j] == s[j]);
            }
        }
    }
}

proof fn lemma_upsert_summary_unique(s: Seq<IssueDetailV>, sum: IssueSummaryV, now: Seq<char>)
    requires
        unique_issue_keys(s),
    ensures
        unique_issue_keys(upsert_summary_seq(s, sum, now)),
{
    lemma_find_issue_idx(s, sum.issue_key);
    let f = find_issue_idx(s, sum.issue_key);
    if f >= 0 {
        let d = apply_summary(s[f], sum, now);
        assert(d.issue_key == s[f].issue_key);
        let t = s.update(f, d);
        assert forall|i: int, j: int| 0 <= i < j < t.len() implies t[i].issue_key
            != t[j].issue_key by {
            if i != f && j != f {
                assert(t[i] == s[i] && t[j] == s[j]);
            } else if i == f {
                assert(t[i].issue_key == s[f].issue_key && t[j] == s[j]);
            } else {
                assert(t[j].issue_key == s[f].issue_key && t[i] == s[i]);
            }
        }
    } else {
        let d = summary_as_new_detail(sum, now);
        let t = s.push(d);
        assert forall|i: int, j: int| 0 <= i < j < t.len() implies t[i].issue_key
            != t[j].issue_key by {
            if j == s.len() {
                assert(t[i] == s[i] && t[j] == d);
            } else {
                assert(t[i] == s[i] && t[j] == s[j]);
            }
        }
    }
}

// ---------------------------------------------------------------------------
// The store
// ---------------------------------------------------------------------------

/// In-memory model of the local cache: the settings rows, the project
/// table, the issue table and the append-only export history. Keys are
/// unique per table; export identifiers are assigned by the store and
/// never reused.
pub struct Db {
    pub space_url: Option<String>,
    pub api_key_configured: bool,
    pub export_dir: Option<String>,
    pub projects: Vec<Project>,
    pub issues: Vec<IssueDetail>,
    pub exports: Vec<ExportHistory>,
    pub next_export_id: i64,
}

impl Db {
    /// Identities are unique and every export id was assigned below the
    /// running counter.
    pub open spec fn wf(&self) -> bool {
        &&& unique_project_ids(projects_view(self.projects@))
        &&& unique_issue_keys(issues_view(self.issues@))
        &&& exports_wf(exports_view(self.exports@), self.next_export_id as int)
        &&& self.next_export_id >= 1
    }

    /// A fresh, empty store.
    pub fn new() -> (db: Db)
        ensures
            db.wf(),
            db.space_url is None,
            !db.api_key_configured,
            db.export_dir is None,
            db.projects@.len() == 0,
            db.issues@.len() == 0,
            db.exports@.len() == 0,
            db.next_export_id == 1,
    {
        Db {
            space_url: None,
            api_key_configured: false,
            export_dir: None,
            projects: Vec::new(),
            issues: Vec::new(),
            exports: Vec::new(),
            next_export_id: 1,
        }
    }

    pub open spec fn same_records(a: &Db, b: &Db) -> bool {
        &&& a.projects == b.projects
        &&& a.issues == b.issues
        &&& a.exports == b.exports
        &&& a.next_export_id == b.next_export_id
    }

    pub open spec fn same_settings(a: &Db, b: &Db) -> bool {
        &&& a.space_url == b.space_url
        &&& a.api_key_configured == b.api_key_configured
        &&& a.export_dir == b.export_dir
    }

    // -- settings rows --------------------------------------------------

    pub fn save_space_url(&mut self, space_url: &str)
        ensures
            final(self).space_url matches Some(u) && u@ == space_url@,
            final(self).api_key_configured == old(self).api_key_configured,
            final(self).export_dir == old(self).export_dir,
            Db::same_records(final(self), old(self)),
            final(self).wf() == old(self).wf(),
    {
        self.space_url = Some(space_url.to_owned());
    }

    pub fn load_space_url(&self) -> (r: Option<String>)
        ensures
            match (r, &self.space_url) {
                (Some(a), Some(b)) => a@ == b@,
                (None, None) => true,
                _ => false,
            },
    {
        match &self.space_url {
            Some(u) => Some(u.clone()),
            None => None,
        }
    }

    pub fn clear_space_url(&mut self)
        ensures
            final(self).space_url is None,
            final(self).api_key_configured == old(self).api_key_configured,
            final(self).export_dir == old(self).export_dir,
            Db::same_records(final(self), old(self)),
            final(self).wf() == old(self).wf(),
    {
        self.space_url = None;
    }

    pub fn save_api_key_configured_marker(&mut self, configured: bool)
        ensures
            final(self).api_key_configured == configured,
            final(self).space_url == old(self).space_url,
            final(self).export_dir == old(self).export_dir,
            Db::same_records(final(self), old(self)),
            final(self).wf() == old(self).wf(),
    {
        self.api_key_configured = configured;
    }

    pub fn load_api_key_configured_marker(&self) -> (r: bool)
        ensures
            r == self.api_key_configured,
    {
        self.api_key_configured
    }

    pub fn clear_api_key_configured_marker(&mut self)
        ensures
            !final(self).api_key_configured,
            final(self).space_url == old(self).space_url,
            final(self).export_dir == old(self).export_dir,
            Db::same_records(final(self), old(self)),
            final(self).wf() == old(self).wf(),
    {
        self.api_key_configured = false;
    }

    pub fn save_export_dir(&mut self, export_dir: &str)
        ensures
            final(self).export_dir matches Some(u) && u@ == export_dir@,
            final(self).space_url == old(self).space_url,
            final(self).api_key_configured == old(self).api_key_configured,
            Db::same_records(final(self), old(self)),
            final(self).wf() == old(self).wf(),
    {
        self.export_dir = Some(export_dir.to_owned());
    }

    pub fn load_export_dir(&self) -> (r: Option<String>)
        ensures
            match (r, &self.export_dir) {
                (Some(a), Some(b)) => a@ == b@,
                (None, None) => true,
                _ => false,
            },
    {
        match &self.export_dir {
            Some(u) => Some(u.clone()),
            None => None,
        }
    }

    pub fn clear_export_dir(&mut self)
        ensures
            final(self).export_dir is None,
            final(self).space_url == old(self).space_url,
            final(self).api_key_configured == old(self).api_key_configured,
            Db::same_records(final(self), old(self)),
            final(self).wf() == old(self).wf(),
    {
        self.export_dir = None;
    }

    // -- projects -------------------------------------------------------

    /// Upsert every fetched project, stamping each with the same write
    /// time; identity is the project id.
    pub fn upsert_projects(&mut self, projects: &Vec<Project>, now: &str)
        requires
            old(self).wf(),
        ensures
            projects_view(final(self).projects@) == upsert_projects_seq(
                projects_view(old(self).projects@),
                projects_view(projects@),
                now@,
            ),
            final(self).issues == old(self).issues,
            final(self).exports == old(self).exports,
            final(self).next_export_id == old(self).next_export_id,
            Db::same_settings(final(self), old(self)),
            final(self).wf(),
    {
        let ghost orig: Seq<ProjectV> = projects_view(self.projects@);
        let ghost items: Seq<ProjectV> = projects_view(projects@);
        let mut i: usize = 0;
        proof {
            assert(items.skip(0) =~= items);
            lemma_upsert_projects_unique(orig, items, now@);
        }
        while i < projects.len()
            invariant
                old(self).wf(),
                i <= projects@.len(),
                orig == projects_view(old(self).projects@),
                items == projects_view(projects@),
                upsert_projects_seq(orig, items, now@) == upsert_projects_seq(
                    projects_view(self.projects@),
                    items.skip(i as int),
                    now@,
                ),
                unique_project_ids(projects_view(self.projects@)),
                self.issues == old(self).issues,
                self.exports == old(self).exports,
                self.next_export_id == old(self).next_export_id,
                Db::same_settings(self, old(self)),
            decreases projects@.len() - i,
        {
            let p = &projects[i];
            let stamped = Project {
                id: p.id,
                project_key: p.project_key.clone(),
                name: p.name.clone(),
                synced_at: now.to_owned(),
            };
            proof {
                assert(stamped@ == stamp_project(items[i as int], now@));
                assert(items.skip(i as int)[0] == items[i as int]);
                assert(items.skip(i as int).skip(1) =~= items.skip(i + 1));
                lemma_upsert_project_unique(
                    projects_view(self.projects@),
                    stamp_project(items[i as int], now@),
                );
            }
            upsert_project_vec(&mut self.projects, stamped);
            i += 1;
        }
        proof {
            assert(items.skip(i as int).len() == 0);
        }
    }

    /// All cached projects, ordered by project key.
    pub fn list_projects(&self) -> (r: Vec<Project>)
        ensures
            r@.to_multiset() == self.projects@.to_multiset(),
            forall|i: int, j: int|
                0 <= i < j < r@.len() ==> lex_le(r@[i].project_key@, r@[j].project_key@),
    {
        let mut copy: Vec<Project> = Vec::new();
        let mut i: usize = 0;
        proof {
            broadcast use vstd::seq_lib::group_to_multiset_ensures;

        }
        while i < self.projects.len()
            invariant
                i <= self.projects@.len(),
                copy@ == self.projects@.take(i as int),
            decreases self.projects@.len() - i,
        {
            copy.push(clone_project(&self.projects[i]));
            i += 1;
            proof {
                assert(copy@ =~= self.projects@.take(i as int));
            }
        }
        proof {
            assert(self.projects@.take(i as int) =~= self.projects@);
        }
        sort_projects_by_key(copy)
    }

    // -- issues ---------------------------------------------------------

    /// Upsert one fully fetched issue; identity is the issue key, and the
    /// write time is stamped by the store, not taken from the record.
    pub fn upsert_issue_detail(&mut self, detail: &IssueDetail, now: &str)
        requires
            old(self).wf(),
        ensures
            issues_view(final(self).issues@) == upsert_detail_seq(
                issues_view(old(self).issues@),
                stamp_detail(detail@, now@),
            ),
            final(self).projects == old(self).projects,
            final(self).exports == old(self).exports,
            final(self).next_export_id == old(self).next_export_id,
            Db::same_settings(final(self), old(self)),
            final(self).wf(),
    {
        let stamped = IssueDetail {
            issue_key: detail.issue_key.clone(),
            summary: detail.summary.clone(),
            description_raw: detail.description_raw.clone(),
            description_md: detail.description_md.clone(),
            updated_at: detail.updated_at.clone(),
            synced_at: now.to_owned(),
        };
        proof {
            assert(stamped@ == stamp_detail(detail@, now@));
            lemma_upsert_detail_unique(issues_view(self.issues@), stamp_detail(detail@, now@));
        }
        match find_issue_pos(&self.issues, &stamped.issue_key) {
            Some(k) => {
                self.issues.set(k, stamped);
                proof {
                    assert(issues_view(self.issues@) =~= issues_view(old(self).issues@).update(
                        find_issue_idx(issues_view(old(self).issues@), detail@.issue_key),
                        stamp_detail(detail@, now@),
                    ));
                }
            },
            None => {
                self.issues.push(stamped);
                proof {
                    assert(issues_view(self.issues@) =~= issues_view(old(self).issues@).push(
                        stamp_detail(detail@, now@),
                    ));
                }
            },
        }
    }

    /// Upsert a bare search row; an existing record keeps its stored
    /// descriptions, a new one starts with empty ones.
    pub fn upsert_issue_summary(&mut self, summary: &IssueSummary, now: &str)
        requires
            old(self).wf(),
        ensures
            issues_view(final(self).issues@) == upsert_summary_seq(
                issues_view(old(self).issues@),
                summary@,
                now@,
            ),
            final(self).projects == old(self).projects,
            final(self).exports == old(self).exports,
            final(self).next_export_id == old(self).next_export_id,
            Db::same_settings(final(self), old(self)),
            final(self).wf(),
    {
        proof {
            lemma_upsert_summary_unique(issues_view(self.issues@), summary@, now@);
        }
        match find_issue_pos(&self.issues, &summary.issue_key) {
            Some(k) => {
                let existing = &self.issues[k];
                let merged = IssueDetail {
                    issue_key: existing.issue_key.clone(),
                    summary: summary.summary.clone(),
                    description_raw: existing.description_raw.clone(),
                    description_md: existing.description_md.clone(),
                    updated_at: summary.updated_at.clone(),
                    synced_at: now.to_owned(),
                };
                proof {
                    assert(merged@ == apply_summary(
                        issues_view(self.issues@)[k as int],
                        summary@,
                        now@,
                    ));
                }
                self.issues.set(k, merged);
                proof {
                    assert(issues_view(self.issues@) =~= issues_view(old(self).issues@).update(
                        find_issue_idx(issues_view(old(self).issues@), summary@.issue_key),
                        apply_summary(
                            issues_view(old(self).issues@)[find_issue_idx(
                                issues_view(old(self).issues@),
                                summary@.issue_key,
                            )],
                            summary@,
                            now@,
                        ),
                    ));
                }
            },
            None => {
                let fresh = IssueDetail {
                    issue_key: summary.issue_key.clone(),
                    summary: summary.summary.clone(),
                    description_raw: String::new(),
                    description_md: String::new(),
                    updated_at: summary.updated_at.clone(),
                    synced_at: now.to_owned(),
                };
                proof {
                    assert(fresh@ == summary_as_new_detail(summary@, now@));
                }
                self.issues.push(fresh);
                proof {
                    assert(issues_view(self.issues@) =~= issues_view(old(self).issues@).push(
                        summary_as_new_detail(summary@, now@),
                    ));
                }
            },
        }
    }

    /// The cached record under exactly this key, if any.
    pub fn get_issue_detail_local(&self, issue_key: &str) -> (r: Option<IssueDetail>)
        ensures
            match r {
                Some(d) => {
                    &&& find_issue_idx(issues_view(self.issues@), issue_key@) >= 0
                    &&& d == self.issues@[find_issue_idx(issues_view(self.issues@), issue_key@)]
                },
                None => find_issue_idx(issues_view(self.issues@), issue_key@) < 0,
            },
    {
        match find_issue_pos_str(&self.issues, issue_key) {
            Some(k) => Some(clone_detail(&self.issues[k])),
            None => None,
        }
    }

    /// Every cached issue whose key or summary contains the keyword,
    /// most recently updated first.
    pub fn search_issue_summaries_local(&self, keyword: &str) -> (r: Vec<IssueSummary>)
        ensures
            local_search_result(self.issues@, keyword@, r@),
    {
        let kw = chars_of(keyword);
        let mut picked: Vec<IssueSummary> = Vec::new();
        let mut i: usize = 0;
        let ghost f = |d: IssueDetail| summary_of(d);
        let ghost pred = |s: IssueSummary| summary_matches(s, keyword@);
        proof {
            reveal(Seq::filter);
            assert(picked@ =~= self.issues@.take(0).map_values(f).filter(pred));
        }
        while i < self.issues.len()
            invariant
                i <= self.issues@.len(),
                kw@ == keyword@,
                f == (|d: IssueDetail| summary_of(d)),
                pred == (|s: IssueSummary| summary_matches(s, keyword@)),
                picked@ == self.issues@.take(i as int).map_values(f).filter(pred),
            decreases self.issues@.len() - i,
        {
            let d = &self.issues[i];
            let s = IssueSummary {
                issue_key: d.issue_key.clone(),
                summary: d.summary.clone(),
                updated_at: d.updated_at.clone(),
            };
            proof {
                assert(s == summary_of(self.issues@[i as int]));
            }
            let hit = if kw.len() == 0 {
                proof {
                    assert(s.issue_key@.subrange(0, 0) =~= keyword@);
                    assert(match_at(s.issue_key@, keyword@, 0));
                }
                true
            } else {
                let key_chars = chars_of(s.issue_key.as_str());
                let sum_chars = chars_of(s.summary.as_str());
                let in_key = match find_tok_from(&key_chars, &kw, 0) {
                    Some(_) => true,
                    None => false,
                };
                let in_sum = match find_tok_from(&sum_chars, &kw, 0) {
                    Some(_) => true,
                    None => false,
                };
                proof {
                    assert(key_chars@.skip(0) =~= key_chars@);
                    assert(sum_chars@.skip(0) =~= sum_chars@);
                }
                in_key || in_sum
            };
            proof {
                reveal(Seq::filter);
                let t = self.issues@.take(i + 1).map_values(f);
                assert(self.issues@.take(i + 1).drop_last() =~= self.issues@.take(i as int));
                assert(t.drop_last() =~= self.issues@.take(i as int).map_values(f));
                assert(t.last() == summary_of(self.issues@[i as int]));
                assert(hit == pred(t.last()));
            }
            if hit {
                picked.push(s);
            }
            i += 1;
        }
        proof {
            assert(self.issues@.take(i as int) =~= self.issues@);
        }
        sort_summaries_desc(picked)
    }

    // -- export history ---------------------------------------------------

    /// Append one export record; the store assigns the identifier and
    /// stamps the time; records are never mutated afterwards.
    pub fn insert_export_history(&mut self, issue_key: &str, export_path: &str, now: &str)
        requires
            old(self).wf(),
            old(self).next_export_id < i64::MAX,
        ensures
            exports_view(final(self).exports@) == exports_view(old(self).exports@).push(
                ExportHistoryV {
                    id: old(self).next_export_id as int,
                    issue_key: issue_key@,
                    export_path: export_path@,
                    exported_at: now@,
                },
            ),
            final(self).next_export_id == old(self).next_export_id + 1,
            final(self).projects == old(self).projects,
            final(self).issues == old(self).issues,
            Db::same_settings(final(self), old(self)),
            final(self).wf(),
    {
        let rec = ExportHistory {
            id: self.next_export_id,
            issue_key: issue_key.to_owned(),
            export_path: export_path.to_owned(),
            exported_at: now.to_owned(),
        };
        self.exports.push(rec);
        self.next_export_id = self.next_export_id + 1;
        proof {
            assert(exports_view(self.exports@) =~= exports_view(old(self).exports@).push(
                ExportHistoryV {
                    id: old(self).next_export_id as int,
                    issue_key: issue_key@,
                    export_path: export_path@,
                    exported_at: now@,
                },
            ));
            let t = exports_view(self.exports@);
            let s = exports_view(old(self).exports@);
            assert forall|i: int, j: int| 0 <= i < j < t.len() implies t[i].id != t[j].id by {
                if j < s.len() {
                    assert(t[i] == s[i] && t[j] == s[j]);
                } else {
                    assert(t[i] == s[i]);
                }
            }
        }
    }

    /// The most recent export records, newest first, at most `limit` of
    /// them; a non-positive limit is rejected.
    pub fn list_exports(&self, limit: i64) -> (r: Result<Vec<ExportHistory>, AppError>)
        ensures
            r is Err <==> limit <= 0,
            (r matches Err(e) ==> e@ == AppErrorV::Validation("limit must be > 0"@)),
            (r matches Ok(v) ==> exists|sorted: Seq<ExportHistory>|
                {
                    &&& #[trigger] sorted.to_multiset() == self.exports@.to_multiset()
                    &&& forall|i: int, j: int|
                        0 <= i < j < sorted.len() ==> lex_le(
                            sorted[j].exported_at@,
                            sorted[i].exported_at@,
                        )
                    &&& v@ == if limit < sorted.len() {
                        sorted.take(limit as int)
                    } else {
                        sorted
                    }
                }),
    {
        if limit <= 0 {
            return Err(AppError::Validation("limit must be > 0".to_owned()));
        }
        let mut copy: Vec<ExportHistory> = Vec::new();
        let mut i: usize = 0;
        while i < self.exports.len()
            invariant
                i <= self.exports@.len(),
                copy@ == self.exports@.take(i as int),
            decreases self.exports@.len() - i,
        {
            copy.push(clone_export(&self.exports[i]));
            i += 1;
            proof {
                assert(copy@ =~= self.exports@.take(i as int));
            }
        }
        proof {
            assert(self.exports@.take(i as int) =~= self.exports@);
        }
        let mut sorted = sort_exports_desc(copy);
        let ghost sorted_seq = sorted@;
        if (limit as u64) < (sorted.len() as u64) {
            sorted.truncate(limit as usize);
            proof {
                assert(sorted@ =~= sorted_seq.take(limit as int));
            }
        }
        Ok(sorted)
    }

    /// Forget the whole export history; the identifier counter runs on.
    pub fn clear_exports(&mut self)
        requires
            old(self).wf(),
        ensures
            final(self).exports@.len() == 0,
            final(self).next_export_id == old(self).next_export_id,
            final(self).projects == old(self).projects,
            final(self).issues == old(self).issues,
            Db::same_settings(final(self), old(self)),
            final(self).wf(),
    {
        self.exports = Vec::new();
        proof {
            assert(exports_view(self.exports@) =~= Seq::<ExportHistoryV>::empty());
        }
    }
}

// ---------------------------------------------------------------------------
// Search and sorting helpers
// ---------------------------------------------------------------------------

/// The search row a stored issue record answers with.
pub open spec fn summary_of(d: IssueDetail) -> IssueSummary {
    IssueSummary { issue_key: d.issue_key, summary: d.summary, updated_at: d.updated_at }
}

/// The keyword matches on the key or on the summary text.
pub open spec fn summary_matches(s: IssueSummary, kw: Seq<char>) -> bool {
    contains_tok(s.issue_key@, kw) || contains_tok(s.summary@, kw)
}

fn clone_project(p: &Project) -> (r: Project)
    ensures
        r == *p,
{
    Project {
        id: p.id,
        project_key: p.project_key.clone(),
        name: p.name.clone(),
        synced_at: p.synced_at.clone(),
    }
}

fn clone_detail(d: &IssueDetail) -> (r: IssueDetail)
    ensures
        r == *d,
{
    IssueDetail {
        issue_key: d.issue_key.clone(),
        summary: d.summary.clone(),
        description_raw: d.description_raw.clone(),
        description_md: d.description_md.clone(),
        updated_at: d.updated_at.clone(),
        synced_at: d.synced_at.clone(),
    }
}

fn clone_export(e: &ExportHistory) -> (r: ExportHistory)
    ensures
        r == *e,
{
    ExportHistory {
        id: e.id,
        issue_key: e.issue_key.clone(),
        export_path: e.export_path.clone(),
        exported_at: e.exported_at.clone(),
    }
}

/// The first position whose record has this project id, as
/// `find_project_idx` names it.
#[verifier::loop_isolation(false)]
fn find_project_pos(v: &Vec<Project>, id: i64) -> (r: Option<usize>)
    ensures
        match r {
            Some(k) => k as int == find_project_idx(projects_view(v@), id as int) && k < v@.len(),
            None => find_project_idx(projects_view(v@), id as int) < 0,
        },
{
    let ghost s = projects_view(v@);
    proof {
        lemma_find_project_idx(s, id as int);
    }
    let mut k: usize = 0;
    while k < v.len()
        invariant
            k <= v@.len(),
            s == projects_view(v@),
            forall|m: int| 0 <= m < k ==> s[m].id != id as int,
        decreases v@.len() - k,
    {
        if v[k].id == id {
            proof {
                let f = find_project_idx(s, id as int);
                assert(s[k as int].id == id as int);
                if f < 0 {
                    assert(false);
                }
                if f < k {
                    assert(s[f].id == id as int);
                    assert(false);
                }
                if f > k {
                    assert(s[k as int].id != id as int);
                    assert(false);
                }
            }
            return Some(k);
        }
        k += 1;
    }
    proof {
        let f = find_project_idx(s, id as int);
        if f >= 0 {
            assert(s[f].id == id as int);
            assert(false);
        }
    }
    None
}

/// The first position whose record has this issue key, as
/// `find_issue_idx` names it.
fn find_issue_pos(v: &Vec<IssueDetail>, issue_key: &String) -> (r: Option<usize>)
    ensures
        match r {
            Some(k) => k as int == find_issue_idx(issues_view(v@), issue_key@) && k < v@.len(),
            None => find_issue_idx(issues_view(v@), issue_key@) < 0,
        },
{
    find_issue_pos_str(v, issue_key.as_str())
}

#[verifier::loop_isolation(false)]
fn find_issue_pos_str(v: &Vec<IssueDetail>, issue_key: &str) -> (r: Option<usize>)
    ensures
        match r {
            Some(k) => k as int == find_issue_idx(issues_view(v@), issue_key@) && k < v@.len(),
            None => find_issue_idx(issues_view(v@), issue_key@) < 0,
        },
{
    let ghost s = issues_view(v@);
    proof {
        lemma_find_issue_idx(s, issue_key@);
    }
    let mut k: usize = 0;
    while k < v.len()
        invariant
            k <= v@.len(),
            s == issues_view(v@),
            forall|m: int| 0 <= m < k ==> s[m].issue_key != issue_key@,
        decreases v@.len() - k,
    {
        if str_eq(v[k].issue_key.as_str(), issue_key) {
            proof {
                let f = find_issue_idx(s, issue_key@);
                assert(s[k as int].issue_key == issue_key@);
                if f < 0 {
                    assert(false);
                }
                if f < k {
                    assert(s[f].issue_key == issue_key@);
                    assert(false);
                }
                if f > k {
                    assert(s[k as int].issue_key != issue_key@);
                    assert(false);
                }
            }
            return Some(k);
        }
        k += 1;
    }
    proof {
        let f = find_issue_idx(s, issue_key@);
        if f >= 0 {
            assert(s[f].issue_key == issue_key@);
            assert(false);
        }
    }
    None
}

/// Character-for-character equality of two string slices.
fn str_eq(a: &str, b: &str) -> (r: bool)
    ensures
        r == (a@ == b@),
{
    let av = chars_of(a);
    let bv = chars_of(b);
    if av.len() != bv.len() {
        return false;
    }
    let mut i: usize = 0;
    while i < av.len()
        invariant
            av@ == a@,
            bv@ == b@,
            a@.len() == b@.len(),
            i <= a@.len(),
            forall|m: int| 0 <= m < i ==> a@[m] == b@[m],
        decreases a@.len() - i,
    {
        if av[i] != bv[i] {
            return false;
        }
        i += 1;
    }
    proof {
        assert(a@ =~= b@);
    }
    true
}

fn upsert_project_vec(v: &mut Vec<Project>, p: Project)
    ensures
        projects_view(final(v)@) == upsert_project_seq(projects_view(old(v)@), p@),
{
    match find_project_pos(v, p.id) {
        Some(k) => {
            v.set(k, p);
            proof {
                assert(projects_view(v@) =~= projects_view(old(v)@).update(
                    find_project_idx(projects_view(old(v)@), p@.id),
                    p@,
                ));
            }
        },
        None => {
            v.push(p);
            proof {
                assert(projects_view(v@) =~= projects_view(old(v)@).push(p@));
            }
        },
    }
}

proof fn lemma_insert_multiset<A>(s: Seq<A>, k: int, x: A)
    requires
        0 <= k <= s.len(),
    ensures
        s.insert(k, x).to_multiset() =~= s.to_multiset().insert(x),
{
    broadcast use vstd::seq_lib::group_to_multiset_ensures;

    assert(s.insert(k, x) =~= s.take(k) + seq![x] + s.skip(k));
    vstd::seq_lib::lemma_multiset_commutative(s.take(k) + seq![x], s.skip(k));
    vstd::seq_lib::lemma_multiset_commutative(s.take(k), seq![x]);
    assert(s =~= s.take(k) + s.skip(k));
    vstd::seq_lib::lemma_multiset_commutative(s.take(k), s.skip(k));
    assert(seq![x].to_multiset() =~= Seq::<A>::empty().push(x).to_multiset());
    assert(Seq::<A>::empty().to_multiset() =~= Multiset::<A>::empty());
}

/// Insertion sort of projects, ascending by project key.
#[verifier::loop_isolation(false)]
fn sort_projects_by_key(v: Vec<Project>) -> (r: Vec<Project>)
    ensures
        r@.to_multiset() == v@.to_multiset(),
        forall|i: int, j: int|
            0 <= i < j < r@.len() ==> lex_le(r@[i].project_key@, r@[j].project_key@),
{
    broadcast use vstd::seq_lib::group_to_multiset_ensures;

    let mut out: Vec<Project> = Vec::new();
    let mut src = v;
    proof {
        assert(out@.to_multiset().add(src@.to_multiset()) =~= v@.to_multiset());
    }
    while src.len() > 0
        invariant
            out@.to_multiset().add(src@.to_multiset()) == v@.to_multiset(),
            forall|i: int, j: int|
                0 <= i < j < out@.len() ==> lex_le(out@[i].project_key@, out@[j].project_key@),
        decreases src@.len(),
    {
        let x = src.remove(0);
        let ghost outp = out@;
        let mut k: usize = 0;
        while k < out.len() && str_lex_le(out[k].project_key.as_str(), x.project_key.as_str())
            invariant
                k <= out@.len(),
                out@ == outp,
                forall|m: int| 0 <= m < k ==> lex_le(out@[m].project_key@, x.project_key@),
            decreases out@.len() - k,
        {
            k += 1;
        }
        proof {
            if k < out@.len() {
                crate::strutil::lemma_lex_le_total(out@[k as int].project_key@, x.project_key@);
            }
        }
        out.insert(k, x);
        proof {
            lemma_insert_multiset(outp, k as int, x);
            assert(out@ =~= outp.insert(k as int, x));
            assert forall|i: int, j: int| 0 <= i < j < out@.len() implies lex_le(
                out@[i].project_key@,
                out@[j].project_key@,
            ) by {
                if i < k && j < k {
                    assert(out@[i] == outp[i] && out@[j] == outp[j]);
                } else if i < k && j == k {
                    assert(out@[i] == outp[i]);
                } else if i < k && j > k {
                    assert(out@[i] == outp[i] && out@[j] == outp[j - 1]);
                } else if i == k && j > k {
                    assert(out@[j] == outp[j - 1]);
                    if j - 1 == k {
                        crate::strutil::lemma_lex_le_refl(outp[k as int].project_key@);
                    }
                    crate::strutil::lemma_lex_le_trans(
                        x.project_key@,
                        outp[k as int].project_key@,
                        outp[j - 1].project_key@,
                    );
                } else {
                    assert(out@[i] == outp[i - 1] && out@[j] == outp[j - 1]);
                }
            }
        }
    }
    proof {
        assert(src@.to_multiset() =~= Multiset::<Project>::empty());
        assert(out@.to_multiset() =~= v@.to_multiset());
    }
    out
}

/// Insertion sort of search rows, descending by update time.
#[verifier::loop_isolation(false)]
fn sort_summaries_desc(v: Vec<IssueSummary>) -> (r: Vec<IssueSummary>)
    ensures
        r@.to_multiset() == v@.to_multiset(),
        forall|i: int, j: int|
            0 <= i < j < r@.len() ==> lex_le(r@[j].updated_at@, r@[i].updated_at@),
{
    broadcast use vstd::seq_lib::group_to_multiset_ensures;

    let mut out: Vec<IssueSummary> = Vec::new();
    let mut src = v;
    proof {
        assert(out@.to_multiset().add(src@.to_multiset()) =~= v@.to_multiset());
    }
    while src.len() > 0
        invariant
            out@.to_multiset().add(src@.to_multiset()) == v@.to_multiset(),
            forall|i: int, j: int|
                0 <= i < j < out@.len() ==> lex_le(out@[j].updated_at@, out@[i].updated_at@),
        decreases src@.len(),
    {
        let x = src.remove(0);
        let ghost outp = out@;
        let mut k: usize = 0;
        while k < out.len() && str_lex_le(x.updated_at.as_str(), out[k].updated_at.as_str())
            invariant
                k <= out@.len(),
                out@ == outp,
                forall|m: int| 0 <= m < k ==> lex_le(x.updated_at@, out@[m].updated_at@),
            decreases out@.len() - k,
        {
            k += 1;
        }
        proof {
            if k < out@.len() {
                crate::strutil::lemma_lex_le_total(x.updated_at@, out@[k as int].updated_at@);
            }
        }
        out.insert(k, x);
        proof {
            lemma_insert_multiset(outp, k as int, x);
            assert(out@ =~= outp.insert(k as int, x));
            assert forall|i: int, j: int| 0 <= i < j < out@.len() implies lex_le(
                out@[j].updated_at@,
                out@[i].updated_at@,
            ) by {
                if i < k && j < k {
                    assert(out@[i] == outp[i] && out@[j] == outp[j]);
                } else if i < k && j == k {
                    assert(out@[i] == outp[i]);
                } else if i < k && j > k {
                    assert(out@[i] == outp[i] && out@[j] == outp[j - 1]);
                } else if i == k && j > k {
                    assert(out@[j] == outp[j - 1]);
                    if j - 1 == k {
                        crate::strutil::lemma_lex_le_refl(outp[k as int].updated_at@);
                    }
                    crate::strutil::lemma_lex_le_trans(
                        outp[j - 1].updated_at@,
                        outp[k as int].updated_at@,
                        x.updated_at@,
                    );
                } else {
                    assert(out@[i] == outp[i - 1] && out@[j] == outp[j - 1]);
                }
            }
        }
    }
    proof {
        assert(src@.to_multiset() =~= Multiset::<IssueSummary>::empty());
        assert(out@.to_multiset() =~= v@.to_multiset());
    }
    out
}

/// Insertion sort of export records, descending by export time.
#[verifier::loop_isolation(false)]
fn sort_exports_desc(v: Vec<ExportHistory>) -> (r: Vec<ExportHistory>)
    ensures
        r@.to_multiset() == v@.to_multiset(),
        forall|i: int, j: int|
            0 <= i < j < r@.len() ==> lex_le(r@[j].exported_at@, r@[i].exported_at@),
{
    broadcast use vstd::seq_lib::group_to_multiset_ensures;

    let mut out: Vec<ExportHistory> = Vec::new();
    let mut src = v;
    proof {
        assert(out@.to_multiset().add(src@.to_multiset()) =~= v@.to_multiset());
    }
    while src.len() > 0
        invariant
            out@.to_multiset().add(src@.to_multiset()) == v@.to_multiset(),
            forall|i: int, j: int|
                0 <= i < j < out@.len() ==> lex_le(out@[j].exported_at@, out@[i].exported_at@),
        decreases src@.len(),
    {
        let x = src.remove(0);
        let ghost outp = out@;
        let mut k: usize = 0;
        while k < out.len() && str_lex_le(x.exported_at.as_str(), out[k].exported_at.as_str())
            invariant
                k <= out@.len(),
                out@ == outp,
                forall|m: int| 0 <= m < k ==> lex_le(x.exported_at@, out@[m].exported_at@),
            decreases out@.len() - k,
        {
            k += 1;
        }
        proof {
            if k < out@.len() {
                crate::strutil::lemma_lex_le_total(x.exported_at@, out@[k as int].exported_at@);
            }
        }
        out.insert(k, x);
        proof {
            lemma_insert_multiset(outp, k as int, x);
            assert(out@ =~= outp.insert(k as int, x));
            assert forall|i: int, j: int| 0 <= i < j < out@.len() implies lex_le(
                out@[j].exported_at@,
                out@[i].exported_at@,
            ) by {
                if i < k && j < k {
                    assert(out@[i] == outp[i] && out@[j] == outp[j]);
                } else if i < k && j == k {
                    assert(out@[i] == outp[i]);
                } else if i < k && j > k {
                    assert(out@[i] == outp[i] && out@[j] == outp[j - 1]);
                } else if i == k && j > k {
                    assert(out@[j] == outp[j - 1]);
                    if j - 1 == k {
                        crate::strutil::lemma_lex_le_refl(outp[k as int].exported_at@);
                    }
                    crate::strutil::lemma_lex_le_trans(
                        outp[j - 1].exported_at@,
                        outp[k as int].exported_at@,
                        x.exported_at@,
                    );
                } else {
                    assert(out@[i] == outp[i - 1] && out@[j] == outp[j - 1]);
                }
            }
        }
    }
    proof {
        assert(src@.to_multiset() =~= Multiset::<ExportHistory>::empty());
        assert(out@.to_multiset() =~= v@.to_multiset());
    }
    out
}

} // verus!
