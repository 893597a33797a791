//! The `initiatives` command: what it accepts, which requests it refuses, the
//! statuses it understands, and the rows of the initiative table.

use vstd::prelude::*;
use crate::text::{lowercase_text, or_empty, text_equal, text_or_empty, to_lowercase};

verus! {

/// The `initiatives` command.
pub struct InitiativesCmd {
    pub action: InitiativesAction,
}

/// What the `initiatives` command does.
pub enum InitiativesAction {
    /// List initiatives.
    List { limit: i64 },
    /// Read an initiative (name or UUID).
    Read { id: String },
    /// Create an initiative.
    Create {
        name: String,
        description: Option<String>,
        owner: Option<String>,
        status: Option<String>,
        target_date: Option<String>,
        color: Option<String>,
        icon: Option<String>,
    },
    /// Change an initiative.
    Update {
        id: String,
        name: Option<String>,
        description: Option<String>,
        owner: Option<String>,
        status: Option<String>,
        target_date: Option<String>,
    },
    /// Archive an initiative.
    Archive { id: String },
    /// Unarchive an initiative.
    Unarchive { id: String },
    /// Delete an initiative.
    Delete { id: String },
    /// Link or unlink projects.
    Projects { action: ProjectsAction },
}

/// Linking projects to an initiative.
pub enum ProjectsAction {
    /// Link a project to an initiative.
    Add { initiative: String, project: String },
    /// Unlink a project from an initiative.
    Remove { initiative: String, project: String },
}

/// The message a request is refused with, if it is refused: an update must set a field.
pub open spec fn initiatives_refusal(a: InitiativesAction) -> Option<Seq<char>> {
    match a {
        InitiativesAction::Update {
            name: None,
            description: None,
            owner: None,
            status: None,
            target_date: None,
            ..
        } => Some(
            "No update fields provided. Use --name, --description, --owner, --status, or --target-date."@,
        ),
        _ => None,
    }
}

/// Refuses an update that changes nothing.
pub fn check_initiatives_request(cmd: &InitiativesCmd) -> (r: Result<(), String>)
    ensures
        match initiatives_refusal(cmd.action) {
            Some(m) => r matches Err(e) && e@ == m,
            None => r is Ok,
        },
{
    match &cmd.action {
        InitiativesAction::Update {
            name: None,
            description: None,
            owner: None,
            status: None,
            target_date: None,
            ..
        } => Err(
            String::from_str(
                "No update fields provided. Use --name, --description, --owner, --status, or --target-date.",
            ),
        ),
        _ => Ok(()),
    }
}

/// The status of an initiative.
#[derive(PartialEq, Eq, Structural, Clone, Copy, Debug)]
pub enum InitiativeStatus {
    Planned,
    Active,
    Completed,
}

/// The status a text names, compared after lowercasing.
pub open spec fn initiative_status_of(s: Seq<char>) -> Option<InitiativeStatus> {
    let l = lowercase_text(s);
    if l == "planned"@ {
        Some(InitiativeStatus::Planned)
    } else if l == "active"@ {
        Some(InitiativeStatus::Active)
    } else if l == "completed"@ {
        Some(InitiativeStatus::Completed)
    } else {
        None
    }
}

/// Parses a `--status` value; anything else than planned, active or completed (in
/// any case) is refused.
pub fn parse_initiative_status(s: &str) -> (r: Result<InitiativeStatus, String>)
    ensures
        match initiative_status_of(s@) {
            Some(v) => r == Ok::<InitiativeStatus, String>(v),
            None => r matches Err(e) && e@ == "Invalid initiative status '"@ + s@
                + "'. Valid values: Planned, Active, Completed"@,
        },
{
    let l = to_lowercase(s);
    if text_equal(l.as_str(), "planned") {
        Ok(InitiativeStatus::Planned)
    } else if text_equal(l.as_str(), "active") {
        Ok(InitiativeStatus::Active)
    } else if text_equal(l.as_str(), "completed") {
        Ok(InitiativeStatus::Completed)
    } else {
        let mut e = String::from_str("Invalid initiative status '");
        e.append(s);
        e.append("'. Valid values: Planned, Active, Completed");
        Err(e)
    }
}

/// An initiative as the list command reads it; status and date as the API writes them.
pub struct InitiativeSummary {
    pub id: Option<String>,
    pub name: Option<String>,
    pub status: Option<String>,
    pub target_date: Option<String>,
}

/// A row of the initiative table.
pub struct InitiativeRow {
    pub id: String,
    pub name: String,
    pub status: String,
    pub target_date: String,
}

/// The table row of an initiative, missing values empty.
pub fn initiative_row(i: &InitiativeSummary) -> (r: InitiativeRow)
    ensures
        r.id@ == or_empty(i.id),
        r.name@ == or_empty(i.name),
        r.status@ == or_empty(i.status),
        r.target_date@ == or_empty(i.target_date),
{
    InitiativeRow {
        id: text_or_empty(&i.id),
        name: text_or_empty(&i.name),
        status: text_or_empty(&i.status),
        target_date: text_or_empty(&i.target_date),
    }
}

} // verus!
