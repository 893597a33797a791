//! The `project-milestones` command: what it accepts, which requests it refuses
//! before calling the API, and the rows of the milestone table.

use vstd::prelude::*;
use crate::text::{lowercase_text, or_empty, text_or_empty, to_lowercase};

verus! {

/// The `project-milestones` command.
pub struct MilestonesCmd {
    pub action: MilestonesAction,
}

/// What the `project-milestones` command does.
pub enum MilestonesAction {
    /// List the milestones of a project.
    List { project: String, limit: i64 },
    /// Read a milestone (UUID, or name with `--project`).
    Read { id: String, project: Option<String> },
    /// Create a milestone in a project.
    Create { name: String, project: String, target_date: Option<String>, description: Option<String> },
    /// Change a milestone.
    Update {
        id: String,
        project: Option<String>,
        name: Option<String>,
        target_date: Option<String>,
        description: Option<String>,
    },
    /// Delete a milestone.
    Delete { id: String, project: Option<String> },
}

/// The message a request is refused with, if it is refused: an update must set a field.
pub open spec fn milestones_refusal(a: MilestonesAction) -> Option<Seq<char>> {
    match a {
        MilestonesAction::Update { name: None, target_date: None, description: None, .. } => Some(
            "No update fields provided. Use --name, --target-date, or --description."@,
        ),
        _ => None,
    }
}

/// Refuses an update that changes nothing.
pub fn check_milestones_request(cmd: &MilestonesCmd) -> (r: Result<(), String>)
    ensures
        match milestones_refusal(cmd.action) {
            Some(m) => r matches Err(e) && e@ == m,
            None => r is Ok,
        },
{
    match &cmd.action {
        MilestonesAction::Update { name: None, target_date: None, description: None, .. } => Err(
            String::from_str("No update fields provided. Use --name, --target-date, or --description."),
        ),
        _ => Ok(()),
    }
}

/// A milestone as the list command reads it; the status is its name as the API
/// gives it.
pub struct MilestoneSummary {
    pub id: Option<String>,
    pub name: Option<String>,
    pub target_date: Option<String>,
    pub description: Option<String>,
    pub status: Option<String>,
}

/// A row of the milestone table.
pub struct MilestoneRow {
    pub id: String,
    pub name: String,
    pub target_date: String,
    pub status: String,
}

/// The table row of a milestone: the status in lowercase, missing values empty.
pub open spec fn milestone_row_of(m: MilestoneSummary, r: MilestoneRow) -> bool {
    &&& r.id@ == or_empty(m.id)
    &&& r.name@ == or_empty(m.name)
    &&& r.target_date@ == or_empty(m.target_date)
    &&& r.status@ == match m.status {
        Some(s) => lowercase_text(s@),
        None => Seq::empty(),
    }
}

/// The table row of a milestone.
pub fn milestone_row(m: &MilestoneSummary) -> (r: MilestoneRow)
    ensures
        milestone_row_of(*m, r),
{
    MilestoneRow {
        id: text_or_empty(&m.id),
        name: text_or_empty(&m.name),
        target_date: text_or_empty(&m.target_date),
        status: match &m.status {
            Some(s) => to_lowercase(s.as_str()),
            None => String::new(),
        },
    }
}

} // verus!
