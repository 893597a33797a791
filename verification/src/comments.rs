//! The `comments` command: what it accepts and which requests it refuses before
//! calling the API.

use vstd::prelude::*;

verus! {

/// The `comments` command.
pub struct CommentsCmd {
    pub action: CommentsAction,
}

/// What the `comments` command does.
pub enum CommentsAction {
    /// Comment on an issue (identifier or UUID).
    Create { issue: String, body: String },
    /// Change a comment's body.
    Update { id: String, body: Option<String> },
    /// Delete a comment.
    Delete { id: String },
    /// Resolve a comment thread, optionally naming the resolving comment.
    Resolve { id: String, resolving_comment: Option<String> },
    /// Reopen a resolved comment thread.
    Unresolve { id: String },
}

/// The message a request is refused with, if it is refused: an update must set the body.
pub open spec fn comments_refusal(a: CommentsAction) -> Option<Seq<char>> {
    match a {
        CommentsAction::Update { body: None, .. } => Some(
            "No update fields provided. Use --body to set the new comment body."@,
        ),
        _ => None,
    }
}

/// Refuses an update that changes nothing.
pub fn check_comments_request(cmd: &CommentsCmd) -> (r: Result<(), String>)
    ensures
        match comments_refusal(cmd.action) {
            Some(m) => r matches Err(e) && e@ == m,
            None => r is Ok,
        },
{
    match &cmd.action {
        CommentsAction::Update { body: None, .. } => Err(
            String::from_str("No update fields provided. Use --body to set the new comment body."),
        ),
        _ => Ok(()),
    }
}

} // verus!
