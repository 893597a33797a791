//! The `projects` command: what it accepts, which requests it refuses, the fields
//! an update clears, priorities, and the rows of the project table.

use vstd::prelude::*;
use crate::text::{all_digits, digits_value, eq_ic, eq_ignore_ascii_case, fold_code, integer_value, or_empty, parse_i64, text_or_empty, views};

verus! {

/// The `projects` command.
pub struct ProjectsCmd {
    pub action: ProjectsAction,
}

/// What the `projects` command does.
pub enum ProjectsAction {
    /// List projects, optionally only those led by the authenticated user.
    List { led_by_me: bool },
    /// Read a project (name or UUID).
    Read { id: String },
    /// Create a project in one or more teams.
    Create {
        name: String,
        team: Vec<String>,
        description: Option<String>,
        lead: Option<String>,
        members: Option<Vec<String>>,
        start_date: Option<String>,
        target_date: Option<String>,
        priority: Option<i64>,
        content: Option<String>,
        icon: Option<String>,
        color: Option<String>,
    },
    /// Change a project.
    Update {
        id: String,
        name: Option<String>,
        description: Option<String>,
        content: Option<String>,
        lead: Option<String>,
        clear_lead: bool,
        members: Option<Vec<String>>,
        team: Option<Vec<String>>,
        start_date: Option<String>,
        clear_start_date: bool,
        target_date: Option<String>,
        clear_target_date: bool,
        priority: Option<i64>,
        status: Option<String>,
        icon: Option<String>,
        color: Option<String>,
        labels: Option<Vec<String>>,
    },
}

/// The message a request is refused with, if it is refused: an update must set or
/// clear a field.
pub open spec fn projects_refusal(a: ProjectsAction) -> Option<Seq<char>> {
    match a {
        ProjectsAction::Update {
            name: None,
            description: None,
            content: None,
            lead: None,
            clear_lead: false,
            members: None,
            team: None,
            start_date: None,
            clear_start_date: false,
            target_date: None,
            clear_target_date: false,
            priority: None,
            status: None,
            icon: None,
            color: None,
            labels: None,
            ..
        } => Some(
            "No update fields provided. Use --name, --description, --content, --lead, --members, --team, --start-date, --target-date, --priority, --status, --icon, --color, or --labels to specify changes."@,
        ),
        _ => None,
    }
}

/// Refuses an update that changes nothing.
pub fn check_projects_request(cmd: &ProjectsCmd) -> (r: Result<(), String>)
    ensures
        match projects_refusal(cmd.action) {
            Some(m) => r matches Err(e) && e@ == m,
            None => r is Ok,
        },
{
    match &cmd.action {
        ProjectsAction::Update {
            name: None,
            description: None,
            content: None,
            lead: None,
            clear_lead: false,
            members: None,
            team: None,
            start_date: None,
            clear_start_date: false,
            target_date: None,
            clear_target_date: false,
            priority: None,
            status: None,
            icon: None,
            color: None,
            labels: None,
            ..
        } => Err(
            String::from_str(
                "No update fields provided. Use --name, --description, --content, --lead, --members, --team, --start-date, --target-date, --priority, --status, --icon, --color, or --labels to specify changes.",
            ),
        ),
        _ => Ok(()),
    }
}

/// The input fields that an update sends as `null`, in this order: `leadId` for
/// `--clear-lead`, `startDate` for `--clear-start-date`, `targetDate` for
/// `--clear-target-date`.
pub open spec fn cleared_field_names(clear_lead: bool, clear_start_date: bool, clear_target_date: bool) -> Seq<Seq<char>> {
    (if clear_lead { seq!["leadId"@] } else { Seq::empty() })
        + (if clear_start_date { seq!["startDate"@] } else { Seq::empty() })
        + (if clear_target_date { seq!["targetDate"@] } else { Seq::empty() })
}

/// The input fields that an update must send as `null`.
pub fn cleared_fields(clear_lead: bool, clear_start_date: bool, clear_target_date: bool) -> (r: Vec<String>)
    ensures
        views(r@) == cleared_field_names(clear_lead, clear_start_date, clear_target_date),
{
    let mut v: Vec<String> = Vec::new();
    if clear_lead {
        v.push(String::from_str("leadId"));
    }
    let ghost a = views(v@);
    if clear_start_date {
        v.push(String::from_str("startDate"));
    }
    let ghost b = views(v@);
    if clear_target_date {
        v.push(String::from_str("targetDate"));
    }
    assert(a =~= (if clear_lead { seq!["leadId"@] } else { Seq::<Seq<char>>::empty() }));
    assert(b =~= a + (if clear_start_date { seq!["startDate"@] } else { Seq::<Seq<char>>::empty() }));
    assert(views(v@) =~= b + (if clear_target_date { seq!["targetDate"@] } else { Seq::<Seq<char>>::empty() }));
    v
}

/// The priority a text stands for: a number 0 to 4, or one of the names `none`,
/// `urgent`, `high`, `medium`, `low` (ignoring case) for 0 to 4.
pub open spec fn priority_of(s: Seq<char>) -> Option<int> {
    if eq_ic(s, "none"@) {
        Some(0)
    } else if eq_ic(s, "urgent"@) {
        Some(1)
    } else if eq_ic(s, "high"@) {
        Some(2)
    } else if eq_ic(s, "medium"@) {
        Some(3)
    } else if eq_ic(s, "low"@) {
        Some(4)
    } else {
        match integer_value(s) {
            Some(v) => if 0 <= v <= 4 {
                Some(v)
            } else {
                None
            },
            None => None,
        }
    }
}

/// Law: each priority name stands for Linear's number for it (none 0, urgent 1,
/// high 2, medium 3, low 4), in any case, so a name and its number give the same
/// priority.
pub proof fn law_priority_names_match_numbers(s: Seq<char>)
    ensures
        eq_ic(s, "none"@) ==> priority_of(s) == Some(0int) && priority_of("0"@) == Some(0int),
        eq_ic(s, "urgent"@) ==> priority_of(s) == Some(1int) && priority_of("1"@) == Some(1int),
        eq_ic(s, "high"@) ==> priority_of(s) == Some(2int) && priority_of("2"@) == Some(2int),
        eq_ic(s, "medium"@) ==> priority_of(s) == Some(3int) && priority_of("3"@) == Some(3int),
        eq_ic(s, "low"@) ==> priority_of(s) == Some(4int) && priority_of("4"@) == Some(4int),
{
    lemma_priority_names_differ(s);
    reveal_strlit("0");
    reveal_strlit("1");
    reveal_strlit("2");
    reveal_strlit("3");
    reveal_strlit("4");
    assert("0"@ =~= seq!['0']);
    lemma_digit_priority("0"@, '0', 0);
    assert("1"@ =~= seq!['1']);
    lemma_digit_priority("1"@, '1', 1);
    assert("2"@ =~= seq!['2']);
    lemma_digit_priority("2"@, '2', 2);
    assert("3"@ =~= seq!['3']);
    lemma_digit_priority("3"@, '3', 3);
    assert("4"@ =~= seq!['4']);
    lemma_digit_priority("4"@, '4', 4);
}

/// A text matches at most one priority name.
proof fn lemma_priority_names_differ(s: Seq<char>)
    ensures
        eq_ic(s, "none"@) ==> !eq_ic(s, "urgent"@) && !eq_ic(s, "high"@) && !eq_ic(s, "medium"@) && !eq_ic(s, "low"@),
        eq_ic(s, "urgent"@) ==> !eq_ic(s, "none"@) && !eq_ic(s, "high"@) && !eq_ic(s, "medium"@) && !eq_ic(s, "low"@),
        eq_ic(s, "high"@) ==> !eq_ic(s, "none"@) && !eq_ic(s, "urgent"@) && !eq_ic(s, "medium"@) && !eq_ic(s, "low"@),
        eq_ic(s, "medium"@) ==> !eq_ic(s, "none"@) && !eq_ic(s, "urgent"@) && !eq_ic(s, "high"@) && !eq_ic(s, "low"@),
{
    reveal_strlit("none");
    reveal_strlit("urgent");
    reveal_strlit("high");
    reveal_strlit("medium");
    reveal_strlit("low");
    if eq_ic(s, "none"@) {
        assert(fold_code(s[0]) == fold_code('n'));
    }
    if eq_ic(s, "urgent"@) {
        assert(fold_code(s[0]) == fold_code('u'));
    }
    if eq_ic(s, "high"@) {
        assert(fold_code(s[0]) == fold_code('h'));
    }
    if eq_ic(s, "medium"@) {
        assert(fold_code(s[0]) == fold_code('m'));
    }
}

/// A single digit text stands for its number.
proof fn lemma_digit_priority(d: Seq<char>, c: char, v: int)
    requires
        0 <= v <= 4,
        d == seq![c],
        c as int == 48 + v,
    ensures
        priority_of(d) == Some(v),
{
    reveal_strlit("none");
    reveal_strlit("urgent");
    reveal_strlit("high");
    reveal_strlit("medium");
    reveal_strlit("low");
    assert(!eq_ic(d, "none"@));
    assert(!eq_ic(d, "urgent"@));
    assert(!eq_ic(d, "high"@));
    assert(!eq_ic(d, "medium"@));
    assert(!eq_ic(d, "low"@));
    assert(d[0] == c);
    assert(d[0] != '-' && d[0] != '+');
    assert(all_digits(d));
    assert(d.drop_last() =~= Seq::<char>::empty());
    assert(digits_value(d) == digits_value(d.drop_last()) * 10 + (d.last() as int - 48));
}

/// Parses a `--priority` value: 0 to 4, or none, urgent, high, medium, low.
pub fn parse_priority(s: &str) -> (r: Result<i64, String>)
    ensures
        eq_ic(s@, "none"@) ==> r == Ok::<i64, String>(0),
        eq_ic(s@, "urgent"@) ==> r == Ok::<i64, String>(1),
        eq_ic(s@, "high"@) ==> r == Ok::<i64, String>(2),
        eq_ic(s@, "medium"@) ==> r == Ok::<i64, String>(3),
        eq_ic(s@, "low"@) ==> r == Ok::<i64, String>(4),
        match priority_of(s@) {
            Some(v) => r == Ok::<i64, String>(v as i64),
            None => r matches Err(e) && e@ == "Invalid priority '"@ + s@
                + "'. Use 0-4 or none, urgent, high, medium, low."@,
        },
{
    proof {
        lemma_priority_names_differ(s@);
    }
    if eq_ignore_ascii_case(s, "none") {
        Ok(0)
    } else if eq_ignore_ascii_case(s, "urgent") {
        Ok(1)
    } else if eq_ignore_ascii_case(s, "high") {
        Ok(2)
    } else if eq_ignore_ascii_case(s, "medium") {
        Ok(3)
    } else if eq_ignore_ascii_case(s, "low") {
        Ok(4)
    } else {
        match parse_i64(s) {
            Some(v) => {
                if 0 <= v && v <= 4 {
                    return Ok(v);
                }
            },
            None => {},
        }
        let mut e = String::from_str("Invalid priority '");
        e.append(s);
        e.append("'. Use 0-4 or none, urgent, high, medium, low.");
        Err(e)
    }
}

/// The lead of a project as listed.
pub struct LeadRef {
    pub id: Option<String>,
    pub name: Option<String>,
    pub display_name: Option<String>,
}

/// A project as the list command reads it.
pub struct ProjectListRef {
    pub id: Option<String>,
    pub name: Option<String>,
    pub slug_id: Option<String>,
    pub lead: Option<LeadRef>,
}

/// A row of the project table.
pub struct ProjectRow {
    pub id: String,
    pub name: String,
    pub slug_id: String,
    pub lead: String,
}

/// How the lead is shown: the display name, else the name, else nothing.
pub open spec fn lead_text(l: Option<LeadRef>) -> Seq<char> {
    match l {
        Some(x) => match x.display_name {
            Some(d) => d@,
            None => or_empty(x.name),
        },
        None => Seq::empty(),
    }
}

/// The table row of a project.
pub fn project_row(p: &ProjectListRef) -> (r: ProjectRow)
    ensures
        r.id@ == or_empty(p.id),
        r.name@ == or_empty(p.name),
        r.slug_id@ == or_empty(p.slug_id),
        r.lead@ == lead_text(p.lead),
{
    ProjectRow {
        id: text_or_empty(&p.id),
        name: text_or_empty(&p.name),
        slug_id: text_or_empty(&p.slug_id),
        lead: match &p.lead {
            Some(l) => match &l.display_name {
                Some(d) => d.clone(),
                None => text_or_empty(&l.name),
            },
            None => String::new(),
        },
    }
}

} // verus!
