//! The `documents` command: what it accepts and which requests it refuses before
//! calling the API.

use vstd::prelude::*;
use crate::text::{or_empty, text_or_empty};

verus! {

/// The `documents` command.
pub struct DocumentsCmd {
    pub action: DocumentsAction,
}

/// What the `documents` command does.
pub enum DocumentsAction {
    /// List documents, optionally of a project or an issue.
    List { limit: i64, project: Option<String>, issue: Option<String> },
    /// Read a document.
    Read { id: String },
    /// Create a document.
    Create { title: String, content: Option<String>, project: Option<String>, issue: Option<String> },
    /// Change a document's title or content.
    Update { id: String, title: Option<String>, content: Option<String> },
    /// Delete a document.
    Delete { id: String },
    /// Search documents, optionally within a team.
    Search { query: String, limit: i64, team: Option<String> },
}

/// The message a request is refused with, if it is refused: an update must set a field.
pub open spec fn documents_refusal(a: DocumentsAction) -> Option<Seq<char>> {
    match a {
        DocumentsAction::Update { title: None, content: None, .. } => Some(
            "No update fields provided. Use --title or --content to specify changes."@,
        ),
        _ => None,
    }
}

/// Refuses an update that changes nothing.
pub fn check_documents_request(cmd: &DocumentsCmd) -> (r: Result<(), String>)
    ensures
        match documents_refusal(cmd.action) {
            Some(m) => r matches Err(e) && e@ == m,
            None => r is Ok,
        },
{
    match &cmd.action {
        DocumentsAction::Update { title: None, content: None, .. } => Err(
            String::from_str("No update fields provided. Use --title or --content to specify changes."),
        ),
        _ => Ok(()),
    }
}

/// Whether a document listing is narrowed by project or issue.
pub fn list_has_filter(project: &Option<String>, issue: &Option<String>) -> (r: bool)
    ensures
        r == (project is Some || issue is Some),
{
    project.is_some() || issue.is_some()
}


/// A document as the list command reads it.
pub struct DocumentSummary {
    pub id: Option<String>,
    pub title: Option<String>,
    pub url: Option<String>,
    pub created_at: Option<String>,
    pub updated_at: Option<String>,
}

/// A row of the document table.
pub struct DocumentRow {
    pub id: String,
    pub title: String,
    pub url: String,
    pub updated_at: String,
}

/// The table row of a document, missing values empty.
pub fn document_row(d: &DocumentSummary) -> (r: DocumentRow)
    ensures
        r.id@ == or_empty(d.id),
        r.title@ == or_empty(d.title),
        r.url@ == or_empty(d.url),
        r.updated_at@ == or_empty(d.updated_at),
{
    DocumentRow {
        id: text_or_empty(&d.id),
        title: text_or_empty(&d.title),
        url: text_or_empty(&d.url),
        updated_at: text_or_empty(&d.updated_at),
    }
}

/// A document search hit.
pub struct DocSearchSummary {
    pub id: Option<String>,
    pub title: Option<String>,
    pub slug_id: Option<String>,
    pub url: Option<String>,
    pub updated_at: Option<String>,
}

/// A row of the document search table.
pub struct DocSearchRow {
    pub id: String,
    pub title: String,
    pub slug_id: String,
    pub url: String,
    pub updated_at: String,
}

/// The table row of a search hit, missing values empty.
pub fn doc_search_row(d: &DocSearchSummary) -> (r: DocSearchRow)
    ensures
        r.id@ == or_empty(d.id),
        r.title@ == or_empty(d.title),
        r.slug_id@ == or_empty(d.slug_id),
        r.url@ == or_empty(d.url),
        r.updated_at@ == or_empty(d.updated_at),
{
    DocSearchRow {
        id: text_or_empty(&d.id),
        title: text_or_empty(&d.title),
        slug_id: text_or_empty(&d.slug_id),
        url: text_or_empty(&d.url),
        updated_at: text_or_empty(&d.updated_at),
    }
}

} // verus!
