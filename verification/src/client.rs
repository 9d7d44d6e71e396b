use vstd::prelude::*;

use crate::errors::{AppError, AppErrorV};
use crate::markdown::{backlog_to_markdown, wiki_to_md};
use crate::models::{IssueDetail, IssueSummary, Project};
use crate::strutil::{chars_of, contains_tok, find_tok_from, string_of, trim_chars, trim_ws};

verus! {

// ---------------------------------------------------------------------------
// Trusted boundary
// ---------------------------------------------------------------------------

/// What `urlencoding::encode` returns for a given input; a pure function
/// of the characters alone.
pub uninterp spec fn percent_enc(s: Seq<char>) -> Seq<char>;

/// Relies on urlencoding::encode: percent-encodes every byte except
/// ASCII alphanumerics and `-`, `_`, `.`, `~`; pure, so the result is a
/// function of the input characters, and an empty input stays empty.
#[verifier::external_body]
fn percent_encode(s: &str) -> (r: String)
    ensures
        r@ == percent_enc(s@),
        s@.len() == 0 ==> r@.len() == 0,
{
    urlencoding::encode(s).into_owned()
}

/// Relies on chrono::Utc::now and DateTime::to_rfc3339 for the current
/// wall-clock time as text; nothing is assumed of the value.
#[verifier::external_body]
pub(crate) fn now_rfc3339() -> (r: String) {
    chrono::Utc::now().to_rfc3339()
}

// ---------------------------------------------------------------------------
// Wire shapes: what the remote payloads carry, already parsed into plain
// values by the caller at the transport edge.
// ---------------------------------------------------------------------------

/// One project as the remote API reports it.
#[derive(Debug, Clone)]
pub struct BacklogProject {
    pub id: i64,
    pub project_key: String,
    pub name: String,
}

/// One issue as the remote API reports it; the description may be absent.
#[derive(Debug, Clone)]
pub struct BacklogIssue {
    pub issue_key: String,
    pub summary: String,
    pub description: Option<String>,
    pub updated: String,
}

// ---------------------------------------------------------------------------
// The client
// ---------------------------------------------------------------------------

/// The URL scheme every request follows: base, path, a connector that
/// respects an existing query string, and the percent-encoded credential.
pub open spec fn spec_url(base: Seq<char>, key: Seq<char>, path: Seq<char>) -> Seq<char> {
    base + path + seq![
        if contains_tok(path, seq!['?']) {
            '&'
        } else {
            '?'
        },
    ] + "apiKey="@ + percent_enc(key)
}

/// `s` with every trailing `/` removed.
pub open spec fn strip_trailing_slashes(s: Seq<char>) -> Seq<char>
    decreases s.len(),
{
    if s.len() > 0 && s[s.len() - 1] == '/' {
        strip_trailing_slashes(s.take(s.len() - 1))
    } else {
        s
    }
}

/// The remote endpoint configuration: a normalized base URL and the
/// credential that is appended to every request as a query parameter.
#[derive(Debug)]
pub struct BacklogClient {
    pub base_url: String,
    pub api_key: String,
}

impl BacklogClient {
    /// Validate and normalize the configuration: both values must be
    /// non-blank after trimming, and the base URL loses trailing slashes.
    /// No network call is made here.
    pub fn new(base_url: &str, api_key: &str) -> (r: Result<BacklogClient, AppError>)
        ensures
            trim_ws(base_url@).len() == 0 ==> (r matches Err(e) && e@ == AppErrorV::Validation(
                "space URL is required"@,
            )),
            trim_ws(base_url@).len() > 0 && trim_ws(api_key@).len() == 0 ==> (r matches Err(e)
                && e@ == AppErrorV::Validation("API key is required"@)),
            trim_ws(base_url@).len() > 0 && trim_ws(api_key@).len() > 0 ==> (r matches Ok(c) && {
                &&& c.base_url@ == strip_trailing_slashes(trim_ws(base_url@))
                &&& c.api_key@ == trim_ws(api_key@)
            }),
    {
        let url_chars = chars_of(base_url);
        let url_trimmed = trim_chars(&url_chars);
        let key_chars = chars_of(api_key);
        let key_trimmed = trim_chars(&key_chars);

        if url_trimmed.len() == 0 {
            return Err(AppError::Validation("space URL is required".to_owned()));
        }
        if key_trimmed.len() == 0 {
            return Err(AppError::Validation("API key is required".to_owned()));
        }

        let mut b: usize = url_trimmed.len();
        proof {
            assert(url_trimmed@.take(url_trimmed@.len() as int) =~= url_trimmed@);
        }
        while b > 0 && url_trimmed[b - 1] == '/'
            invariant
                b <= url_trimmed@.len(),
                strip_trailing_slashes(url_trimmed@) == strip_trailing_slashes(
                    url_trimmed@.take(b as int),
                ),
            decreases b,
        {
            proof {
                assert(url_trimmed@.take(b as int).take(b - 1) =~= url_trimmed@.take(b - 1));
            }
            b -= 1;
        }
        let base = crate::strutil::copy_range(&url_trimmed, 0, b);
        proof {
            assert(strip_trailing_slashes(url_trimmed@.take(b as int)) == url_trimmed@.take(
                b as int,
            ));
            assert(base@ =~= url_trimmed@.take(b as int));
        }
        Ok(BacklogClient { base_url: string_of(&base), api_key: string_of(&key_trimmed) })
    }

    /// The URL of `path` on this client's space, with the credential
    /// appended as the `apiKey` query parameter, percent-encoded; the
    /// connector is `&` when the path already carries a query string.
    pub fn url_with_key(&self, path: &str) -> (r: String)
        ensures
            r@ == spec_url(self.base_url@, self.api_key@, path@),
    {
        let path_chars = chars_of(path);
        let qmark: Vec<char> = vec!['?'];
        let has_query = match find_tok_from(&path_chars, &qmark, 0) {
            Some(_) => true,
            None => false,
        };
        proof {
            assert(path_chars@.skip(0) =~= path_chars@);
            assert(qmark@ =~= seq!['?']);
        }
        let mut u = self.base_url.clone();
        u.append(path);
        if has_query {
            crate::strutil::push_char(&mut u, '&');
        } else {
            crate::strutil::push_char(&mut u, '?');
        }
        u.append("apiKey=");
        let encoded = percent_encode(self.api_key.as_str());
        u.append(encoded.as_str());
        u
    }

    /// The identity-check endpoint used to verify the credential.
    pub fn verify_url(&self) -> (r: String)
        ensures
            r@ == spec_url(self.base_url@, self.api_key@, "/api/v2/users/myself"@),
    {
        self.url_with_key("/api/v2/users/myself")
    }

    /// The project listing endpoint.
    pub fn projects_url(&self) -> (r: String)
        ensures
            r@ == spec_url(self.base_url@, self.api_key@, "/api/v2/projects"@),
    {
        self.url_with_key("/api/v2/projects")
    }

    /// The issue-by-key endpoint; the key is spliced into the path.
    pub fn issue_url(&self, issue_key: &str) -> (r: String)
        ensures
            r@ == spec_url(self.base_url@, self.api_key@, "/api/v2/issues/"@ + issue_key@),
    {
        let mut path = "/api/v2/issues/".to_owned();
        path.append(issue_key);
        self.url_with_key(path.as_str())
    }

    /// The keyword search endpoint; the keyword is trimmed and
    /// percent-encoded into the query string.
    pub fn search_url(&self, keyword: &str) -> (r: String)
        ensures
            r@ == spec_url(
                self.base_url@,
                self.api_key@,
                "/api/v2/issues?keyword="@ + percent_enc(trim_ws(keyword@)),
            ),
    {
        let kw_chars = chars_of(keyword);
        let kw_trimmed = trim_chars(&kw_chars);
        let kw_str = string_of(&kw_trimmed);
        let encoded = percent_encode(kw_str.as_str());
        let mut path = "/api/v2/issues?keyword=".to_owned();
        path.append(encoded.as_str());
        self.url_with_key(path.as_str())
    }
}

// ---------------------------------------------------------------------------
// From the wire shapes into the data model
// ---------------------------------------------------------------------------

/// Build the full issue record from one fetched payload: the raw
/// description (empty when absent) is kept, its markdown rendering is
/// derived right here, and `synced_at` is stamped with the caller's
/// clock reading, never taken from the payload.
pub fn to_detail(issue: BacklogIssue, now: &str) -> (r: IssueDetail)
    ensures
        r.issue_key == issue.issue_key,
        r.summary == issue.summary,
        r@.description_raw == match issue.description {
            Some(d) => d@,
            None => Seq::<char>::empty(),
        },
        r@.description_md == wiki_to_md(r@.description_raw),
        r.updated_at == issue.updated,
        r@.synced_at == now@,
{
    let raw = match issue.description {
        Some(d) => d,
        None => String::new(),
    };
    let md = backlog_to_markdown(raw.as_str());
    IssueDetail {
        issue_key: issue.issue_key,
        summary: issue.summary,
        description_raw: raw,
        description_md: md,
        updated_at: issue.updated,
        synced_at: now.to_owned(),
    }
}

/// Build the project records from one fetched listing, stamping every
/// record with the same clock reading.
pub fn projects_from_wire(items: Vec<BacklogProject>, now: &str) -> (r: Vec<Project>)
    ensures
        r@.len() == items@.len(),
        forall|i: int|
            0 <= i < r@.len() ==> {
                &&& r@[i]@.id == items@[i].id as int
                &&& r@[i]@.project_key == items@[i].project_key@
                &&& r@[i]@.name == items@[i].name@
                &&& r@[i]@.synced_at == now@
            },
{
    let mut r: Vec<Project> = Vec::new();
    let mut items = items;
    let ghost orig = items@;
    while items.len() > 0
        invariant
            r@.len() + items@.len() == orig.len(),
            items@ == orig.skip(r@.len() as int),
            forall|i: int|
                0 <= i < r@.len() ==> {
                    &&& r@[i]@.id == orig[i].id as int
                    &&& r@[i]@.project_key == orig[i].project_key@
                    &&& r@[i]@.name == orig[i].name@
                    &&& r@[i]@.synced_at == now@
                },
        decreases items@.len(),
    {
        let ghost before = items@;
        let p = items.remove(0);
        proof {
            assert(items@ =~= before.skip(1));
            assert(before.skip(1) =~= orig.skip(r@.len() + 1 as int));
        }
        r.push(
            Project {
                id: p.id,
                project_key: p.project_key,
                name: p.name,
                synced_at: now.to_owned(),
            },
        );
    }
    r
}

/// Build the search rows from one fetched result list.
pub fn summaries_from_wire(items: Vec<BacklogIssue>) -> (r: Vec<IssueSummary>)
    ensures
        r@.len() == items@.len(),
        forall|i: int|
            0 <= i < r@.len() ==> {
                &&& r@[i].issue_key == items@[i].issue_key
                &&& r@[i].summary == items@[i].summary
                &&& r@[i].updated_at == items@[i].updated
            },
{
    let mut r: Vec<IssueSummary> = Vec::new();
    let mut items = items;
    let ghost orig = items@;
    while items.len() > 0
        invariant
            r@.len() + items@.len() == orig.len(),
            items@ == orig.skip(r@.len() as int),
            forall|i: int|
                0 <= i < r@.len() ==> {
                    &&& r@[i].issue_key == orig[i].issue_key
                    &&& r@[i].summary == orig[i].summary
                    &&& r@[i].updated_at == orig[i].updated
                },
        decreases items@.len(),
    {
        let ghost before = items@;
        let it = items.remove(0);
        proof {
            assert(items@ =~= before.skip(1));
            assert(before.skip(1) =~= orig.skip(r@.len() + 1 as int));
        }
        r.push(
            IssueSummary { issue_key: it.issue_key, summary: it.summary, updated_at: it.updated },
        );
    }
    r
}

} // verus!
