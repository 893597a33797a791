//! The `teams` command: what it accepts, which requests it refuses, the rows of the
//! team table, and finding the membership to remove.

use vstd::prelude::*;
use crate::resolve::TeamNode;
use crate::seqs::{first_match, lemma_first_match_none, lemma_first_match_unique};
use crate::text::{or_empty, text_equal, text_or_empty};

verus! {

/// The `teams` command.
pub struct TeamsCmd {
    pub action: TeamsAction,
}

/// What the `teams` command does.
pub enum TeamsAction {
    /// List all teams.
    List,
    /// Read a team (key, name or UUID).
    Read { id: String },
    /// Create a team.
    Create {
        name: String,
        key: Option<String>,
        description: Option<String>,
        icon: Option<String>,
        color: Option<String>,
        timezone: Option<String>,
        private: Option<bool>,
        cycles_enabled: Option<bool>,
        triage_enabled: Option<bool>,
    },
    /// Change a team.
    Update {
        id: String,
        name: Option<String>,
        key: Option<String>,
        description: Option<String>,
        icon: Option<String>,
        color: Option<String>,
        timezone: Option<String>,
        private: Option<bool>,
        cycles_enabled: Option<bool>,
        triage_enabled: Option<bool>,
    },
    /// Delete a team.
    Delete { id: String },
    /// Manage the team's members.
    Members { action: MembersAction },
}

/// Adding or removing a team member.
pub enum MembersAction {
    /// Add a user (name, display name, UUID or `me`) to a team.
    Add { team: String, user: String },
    /// Remove a user from a team.
    Remove { team: String, user: String },
}

/// The message a request is refused with, if it is refused: an update must set a field.
pub open spec fn teams_refusal(a: TeamsAction) -> Option<Seq<char>> {
    match a {
        TeamsAction::Update {
            name: None,
            key: None,
            description: None,
            icon: None,
            color: None,
            timezone: None,
            private: None,
            cycles_enabled: None,
            triage_enabled: None,
            ..
        } => Some(
            "No update fields provided. Use --name, --key, --description, --icon, --color, --timezone, --private, --cycles-enabled, or --triage-enabled."@,
        ),
        _ => None,
    }
}

/// Refuses an update that changes nothing.
pub fn check_teams_request(cmd: &TeamsCmd) -> (r: Result<(), String>)
    ensures
        match teams_refusal(cmd.action) {
            Some(m) => r matches Err(e) && e@ == m,
            None => r is Ok,
        },
{
    match &cmd.action {
        TeamsAction::Update {
            name: None,
            key: None,
            description: None,
            icon: None,
            color: None,
            timezone: None,
            private: None,
            cycles_enabled: None,
            triage_enabled: None,
            ..
        } => Err(
            String::from_str(
                "No update fields provided. Use --name, --key, --description, --icon, --color, --timezone, --private, --cycles-enabled, or --triage-enabled.",
            ),
        ),
        _ => Ok(()),
    }
}

/// A row of the team table.
pub struct TeamRow {
    pub id: String,
    pub key: String,
    pub name: String,
}

/// The table row of a team, missing values empty.
pub fn team_row(t: &TeamNode) -> (r: TeamRow)
    ensures
        r.id@ == or_empty(t.id),
        r.key@ == or_empty(t.key),
        r.name@ == or_empty(t.name),
{
    TeamRow { id: text_or_empty(&t.id), key: text_or_empty(&t.key), name: text_or_empty(&t.name) }
}

/// Whether the optional text is present and equal to `s`.
pub open spec fn opt_is(a: Option<String>, s: Seq<char>) -> bool {
    match a {
        Some(x) => x@ == s,
        None => false,
    }
}

/// Whether an optional string is present and equal to `s`.
fn opt_equals(a: &Option<String>, s: &str) -> (r: bool)
    ensures
        r == opt_is(*a, s@),
{
    match a {
        Some(x) => text_equal(x.as_str(), s),
        None => false,
    }
}

/// Refuses to remove a user who is not among the team's members.
pub fn check_is_member(user_id: &str, member_ids: &Vec<Option<String>>) -> (r: Result<(), String>)
    ensures
        (exists|i: int| 0 <= i < member_ids@.len() && opt_is(#[trigger] member_ids@[i], user_id@))
            ==> r is Ok,
        !(exists|i: int| 0 <= i < member_ids@.len() && opt_is(#[trigger] member_ids@[i], user_id@))
            ==> (r matches Err(e) && e@ == "User is not a member of this team"@),
{
    let n = member_ids.len();
    let mut i: usize = 0;
    while i < n
        invariant
            n == member_ids@.len(),
            i <= n,
            forall|j: int| 0 <= j < i ==> !opt_is(#[trigger] member_ids@[j], user_id@),
        decreases n - i,
    {
        if opt_equals(&member_ids[i], user_id) {
            return Ok(());
        }
        i = i + 1;
    }
    Err(String::from_str("User is not a member of this team"))
}

/// A team membership: its id and the id of its user.
pub struct MembershipNode {
    pub id: Option<String>,
    pub user_id: Option<String>,
}

/// A membership of the user `u`.
pub open spec fn membership_of(u: Seq<char>) -> spec_fn(MembershipNode) -> bool {
    |m: MembershipNode| opt_is(m.user_id, u)
}

/// The membership to delete: the id of the user's first membership, which must have one.
pub open spec fn membership_to_remove(u: Seq<char>, ms: Seq<MembershipNode>) -> Result<Seq<char>, Seq<char>> {
    match first_match(ms, membership_of(u)) {
        Some(i) => match ms[i].id {
            Some(id) => Ok(id@),
            None => Err("Could not find team membership for this user"@),
        },
        None => Err("Could not find team membership for this user"@),
    }
}

/// Finds the membership of the user to delete.
pub fn find_membership(user_id: &str, memberships: &Vec<MembershipNode>) -> (r: Result<String, String>)
    ensures
        match r {
            Ok(s) => membership_to_remove(user_id@, memberships@) == Ok::<Seq<char>, Seq<char>>(s@),
            Err(e) => membership_to_remove(user_id@, memberships@) == Err::<Seq<char>, Seq<char>>(e@),
        },
{
    let n = memberships.len();
    let mut i: usize = 0;
    while i < n
        invariant
            n == memberships@.len(),
            i <= n,
            forall|j: int| 0 <= j < i ==> !(#[trigger] membership_of(user_id@)(memberships@[j])),
        decreases n - i,
    {
        if opt_equals(&memberships[i].user_id, user_id) {
            proof {
                lemma_first_match_unique(memberships@, membership_of(user_id@), i as int);
            }
            return match &memberships[i].id {
                Some(id) => Ok(id.clone()),
                None => Err(String::from_str("Could not find team membership for this user")),
            };
        }
        i = i + 1;
    }
    proof {
        lemma_first_match_none(memberships@, membership_of(user_id@));
    }
    Err(String::from_str("Could not find team membership for this user"))
}

} // verus!
