use vstd::prelude::*;

verus! {

/// A tracked project, upserted wholesale on every successful project list
/// fetch. Identity is `id`; `synced_at` is stamped by the side that writes
/// to the cache, never taken from the remote payload.
#[derive(Debug, Clone)]
pub struct Project {
    pub id: i64,
    pub project_key: String,
    pub name: String,
    pub synced_at: String,
}

pub ghost struct ProjectV {
    pub id: int,
    pub project_key: Seq<char>,
    pub name: Seq<char>,
    pub synced_at: Seq<char>,
}

impl View for Project {
    type V = ProjectV;

    open spec fn view(&self) -> ProjectV {
        ProjectV {
            id: self.id as int,
            project_key: self.project_key@,
            name: self.name@,
            synced_at: self.synced_at@,
        }
    }
}

/// One row of a search result; produced both by remote search and by the
/// local fallback, with the same shape either way. Identity is `issue_key`.
#[derive(Debug, Clone)]
pub struct IssueSummary {
    pub issue_key: String,
    pub summary: String,
    pub updated_at: String,
}

pub ghost struct IssueSummaryV {
    pub issue_key: Seq<char>,
    pub summary: Seq<char>,
    pub updated_at: Seq<char>,
}

impl View for IssueSummary {
    type V = IssueSummaryV;

    open spec fn view(&self) -> IssueSummaryV {
        IssueSummaryV {
            issue_key: self.issue_key@,
            summary: self.summary@,
            updated_at: self.updated_at@,
        }
    }
}

/// A fully fetched issue. `description_md` is always derived from
/// `description_raw` by the markup converter at fetch time.
#[derive(Debug, Clone)]
pub struct IssueDetail {
    pub issue_key: String,
    pub summary: String,
    pub description_raw: String,
    pub description_md: String,
    pub updated_at: String,
    pub synced_at: String,
}

pub ghost struct IssueDetailV {
    pub issue_key: Seq<char>,
    pub summary: Seq<char>,
    pub description_raw: Seq<char>,
    pub description_md: Seq<char>,
    pub updated_at: Seq<char>,
    pub synced_at: Seq<char>,
}

impl View for IssueDetail {
    type V = IssueDetailV;

    open spec fn view(&self) -> IssueDetailV {
        IssueDetailV {
            issue_key: self.issue_key@,
            summary: self.summary@,
            description_raw: self.description_raw@,
            description_md: self.description_md@,
            updated_at: self.updated_at@,
            synced_at: self.synced_at@,
        }
    }
}

/// An append-only record of one export to disk; `id` is assigned by the
/// store and a record is never mutated once created.
#[derive(Debug, Clone)]
pub struct ExportHistory {
    pub id: i64,
    pub issue_key: String,
    pub export_path: String,
    pub exported_at: String,
}

pub ghost struct ExportHistoryV {
    pub id: int,
    pub issue_key: Seq<char>,
    pub export_path: Seq<char>,
    pub exported_at: Seq<char>,
}

impl View for ExportHistory {
    type V = ExportHistoryV;

    open spec fn view(&self) -> ExportHistoryV {
        ExportHistoryV {
            id: self.id as int,
            issue_key: self.issue_key@,
            export_path: self.export_path@,
            exported_at: self.exported_at@,
        }
    }
}

/// What the setup screen needs to know about stored configuration.
#[derive(Debug, Clone)]
pub struct SetupState {
    pub space_url: Option<String>,
    pub has_api_key: bool,
    pub export_dir: Option<String>,
}

/// The answer of a successful export command: where the file was written.
#[derive(Debug, Clone)]
pub struct ExportResult {
    pub path: String,
}

} // verus!
