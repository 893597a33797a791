//! Issues: hiding finished issues from search results, the rows of the issue
//! table, how label changes are sent, and how an issue is read.

use vstd::prelude::*;
use crate::ids::{is_uuid, uuid_text};
use crate::seqs::{first_match, lemma_filter_take_step, lemma_first_match_none, lemma_first_match_unique};
use crate::text::{eq_ic, eq_ignore_ascii_case, opt_eq_ic, opt_eq_ignore_ascii_case, or_empty, text_or_empty};

verus! {

/// A user as nested in an issue.
pub struct NestedUser {
    pub id: Option<String>,
    pub name: Option<String>,
}

/// A workflow state as nested in an issue.
pub struct NestedState {
    pub id: Option<String>,
    pub name: Option<String>,
}

/// A team as nested in an issue.
pub struct NestedTeam {
    pub id: Option<String>,
    pub key: Option<String>,
    pub name: Option<String>,
}

/// An issue as the list and search commands read it.
pub struct IssueListItem {
    pub identifier: Option<String>,
    pub title: Option<String>,
    pub priority_label: Option<String>,
    pub assignee: Option<NestedUser>,
    pub state: Option<NestedState>,
    pub team: Option<NestedTeam>,
}

/// A row of the issue table.
pub struct IssueRow {
    pub identifier: String,
    pub title: String,
    pub status: String,
    pub assignee: String,
    pub priority: String,
    pub team: String,
}

/// The name of an issue's state, empty when missing.
pub open spec fn state_name(i: IssueListItem) -> Seq<char> {
    match i.state {
        Some(s) => or_empty(s.name),
        None => Seq::empty(),
    }
}

/// The state names that count as finished, compared without regard to case.
pub open spec fn is_done_state(name: Seq<char>) -> bool {
    ||| eq_ic("Done"@, name)
    ||| eq_ic("Canceled"@, name)
    ||| eq_ic("Cancelled"@, name)
    ||| eq_ic("Duplicate"@, name)
}

/// An issue that is not in a finished state.
pub open spec fn not_done() -> spec_fn(IssueListItem) -> bool {
    |i: IssueListItem| !is_done_state(state_name(i))
}

/// The issues that a sequence of references points at.
pub open spec fn issue_derefs(v: Seq<&IssueListItem>) -> Seq<IssueListItem> {
    v.map_values(|i: &IssueListItem| *i)
}

/// Whether a state name counts as finished.
pub fn is_done_state_name(name: &str) -> (r: bool)
    ensures
        r == is_done_state(name@),
{
    eq_ignore_ascii_case("Done", name) || eq_ignore_ascii_case("Canceled", name)
        || eq_ignore_ascii_case("Cancelled", name) || eq_ignore_ascii_case("Duplicate", name)
}

/// The issues to show: all of them with `show_done`; otherwise, in their order,
/// those whose state is not Done, Canceled, Cancelled or Duplicate (ignoring case).
pub fn filter_done(items: &[IssueListItem], show_done: bool) -> (r: Vec<&IssueListItem>)
    ensures
        show_done ==> issue_derefs(r@) == items@,
        !show_done ==> issue_derefs(r@) == items@.filter(not_done()),
{
    let mut out: Vec<&IssueListItem> = Vec::new();
    let n = items.len();
    let mut i: usize = 0;
    assert(items@.take(0).filter(not_done()) =~= Seq::<IssueListItem>::empty()) by {
        reveal_with_fuel(Seq::<_>::filter, 1);
    }
    while i < n
        invariant
            n == items@.len(),
            i <= n,
            show_done ==> issue_derefs(out@) =~= items@.take(i as int),
            !show_done ==> issue_derefs(out@) =~= items@.take(i as int).filter(not_done()),
        decreases n - i,
    {
        proof {
            lemma_filter_take_step(items@, not_done(), i as int);
        }
        let it = &items[i];
        let keep = if show_done {
            true
        } else {
            let name = match &it.state {
                Some(s) => text_or_empty(&s.name),
                None => String::new(),
            };
            !is_done_state_name(name.as_str())
        };
        if keep {
            let ghost before = out@;
            out.push(it);
            assert(issue_derefs(out@) =~= issue_derefs(before).push(*it));
        }
        assert(items@.take(i + 1) =~= items@.take(i as int).push(items@[i as int]));
        i = i + 1;
    }
    assert(items@.take(n as int) =~= items@);
    out
}

/// The text of a nested optional name.
pub open spec fn nested_user_name(u: Option<NestedUser>) -> Seq<char> {
    match u {
        Some(x) => or_empty(x.name),
        None => Seq::empty(),
    }
}

/// The key of a nested team, empty when missing.
pub open spec fn nested_team_key(t: Option<NestedTeam>) -> Seq<char> {
    match t {
        Some(x) => or_empty(x.key),
        None => Seq::empty(),
    }
}

/// The table row of an issue: missing values are shown empty.
pub open spec fn issue_row_of(i: IssueListItem, r: IssueRow) -> bool {
    &&& r.identifier@ == or_empty(i.identifier)
    &&& r.title@ == or_empty(i.title)
    &&& r.status@ == state_name(i)
    &&& r.assignee@ == nested_user_name(i.assignee)
    &&& r.priority@ == or_empty(i.priority_label)
    &&& r.team@ == nested_team_key(i.team)
}

/// The table row of an issue.
pub fn issue_row(i: &IssueListItem) -> (r: IssueRow)
    ensures
        issue_row_of(*i, r),
{
    IssueRow {
        identifier: text_or_empty(&i.identifier),
        title: text_or_empty(&i.title),
        status: match &i.state {
            Some(s) => text_or_empty(&s.name),
            None => String::new(),
        },
        assignee: match &i.assignee {
            Some(a) => text_or_empty(&a.name),
            None => String::new(),
        },
        priority: text_or_empty(&i.priority_label),
        team: match &i.team {
            Some(t) => text_or_empty(&t.key),
            None => String::new(),
        },
    }
}

/// How `--labels` is applied on update.
#[derive(PartialEq, Eq, Structural, Clone, Copy, Debug)]
pub enum LabelMode {
    /// Replace all existing labels with the given ones.
    Replacing,
    /// Add the given labels to the existing set.
    Adding,
    /// Remove the given labels from the existing set.
    Removing,
}

/// The label fields of an issue update: the full set, the ones to add, the ones to
/// remove. At most one of them is present.
pub struct LabelChange {
    pub label_ids: Option<Vec<String>>,
    pub added_label_ids: Option<Vec<String>>,
    pub removed_label_ids: Option<Vec<String>>,
}

/// The label fields of an update: `--clear-labels` sends an empty set; otherwise
/// the given labels go to the field that the mode names; without labels nothing
/// is sent.
pub fn label_change(clear_labels: bool, labels: Option<Vec<String>>, mode: LabelMode) -> (r: LabelChange)
    ensures
        clear_labels ==> (r.label_ids matches Some(v) && v@.len() == 0) && r.added_label_ids is None
            && r.removed_label_ids is None,
        !clear_labels && labels is None ==> r.label_ids is None && r.added_label_ids is None
            && r.removed_label_ids is None,
        !clear_labels && mode == LabelMode::Replacing ==> r.label_ids == labels
            && r.added_label_ids is None && r.removed_label_ids is None,
        !clear_labels && mode == LabelMode::Adding ==> r.label_ids is None && r.added_label_ids
            == labels && r.removed_label_ids is None,
        !clear_labels && mode == LabelMode::Removing ==> r.label_ids is None
            && r.added_label_ids is None && r.removed_label_ids == labels,
{
    if clear_labels {
        LabelChange { label_ids: Some(Vec::new()), added_label_ids: None, removed_label_ids: None }
    } else {
        match labels {
            Some(ids) => match mode {
                LabelMode::Replacing => LabelChange {
                    label_ids: Some(ids),
                    added_label_ids: None,
                    removed_label_ids: None,
                },
                LabelMode::Adding => LabelChange {
                    label_ids: None,
                    added_label_ids: Some(ids),
                    removed_label_ids: None,
                },
                LabelMode::Removing => LabelChange {
                    label_ids: None,
                    added_label_ids: None,
                    removed_label_ids: Some(ids),
                },
            },
            None => LabelChange { label_ids: None, added_label_ids: None, removed_label_ids: None },
        }
    }
}

/// How a single issue is fetched.
#[derive(PartialEq, Eq, Structural, Clone, Copy, Debug)]
pub enum IssueReadRoute {
    /// Query the issue directly by the given id or identifier.
    ById,
    /// Search for the identifier and keep the hit whose identifier matches exactly.
    BySearch,
}

/// Whether the text holds a `-`.
pub open spec fn has_hyphen(s: Seq<char>) -> bool {
    exists|i: int| 0 <= i < s.len() && s[i] == '-'
}

/// Whether `s` contains a hyphen.
pub fn contains_hyphen(s: &str) -> (r: bool)
    ensures
        r == has_hyphen(s@),
{
    let n = s.unicode_len();
    let mut i: usize = 0;
    while i < n
        invariant
            n == s@.len(),
            i <= n,
            forall|j: int| 0 <= j < i ==> s@[j] != '-',
        decreases n - i,
    {
        if s.get_char(i) == '-' {
            return true;
        }
        i = i + 1;
    }
    false
}

/// A UUID, or an identifier without a hyphen, is read directly; an identifier with
/// a hyphen (such as `ENG-123`) is searched for.
pub fn issue_read_route(identifier: &str) -> (r: IssueReadRoute)
    ensures
        r == (if !uuid_text(identifier@) && has_hyphen(identifier@) {
            IssueReadRoute::BySearch
        } else {
            IssueReadRoute::ById
        }),
{
    if is_uuid(identifier) {
        IssueReadRoute::ById
    } else if contains_hyphen(identifier) {
        IssueReadRoute::BySearch
    } else {
        IssueReadRoute::ById
    }
}

/// A search hit whose identifier equals the query, ignoring case.
pub open spec fn exact_identifier(q: Seq<char>) -> spec_fn(Option<String>) -> bool {
    |s: Option<String>| opt_eq_ic(s, q)
}

/// The position of the first search hit whose identifier matches the query
/// exactly (ignoring case); a fuzzy search may return other issues first.
pub fn pick_exact_identifier(q: &str, identifiers: &Vec<Option<String>>) -> (r: Option<usize>)
    ensures
        match r {
            Some(i) => i < identifiers@.len() && first_match(identifiers@, exact_identifier(q@))
                == Some(i as int),
            None => first_match(identifiers@, exact_identifier(q@)) == None::<int>,
        },
{
    let n = identifiers.len();
    let mut i: usize = 0;
    while i < n
        invariant
            n == identifiers@.len(),
            i <= n,
            forall|j: int| 0 <= j < i ==> !(#[trigger] exact_identifier(q@)(identifiers@[j])),
        decreases n - i,
    {
        if opt_eq_ignore_ascii_case(&identifiers[i], q) {
            proof {
                lemma_first_match_unique(identifiers@, exact_identifier(q@), i as int);
            }
            return Some(i);
        }
        i = i + 1;
    }
    proof {
        lemma_first_match_none(identifiers@, exact_identifier(q@));
    }
    None
}

/// A mutation succeeded only when its payload says `success: true`; otherwise the
/// error carries the payload text.
pub fn check_success(success: Option<bool>, payload_text: &str) -> (r: Result<(), String>)
    ensures
        success == Some(true) ==> r is Ok,
        success != Some(true) ==> (r matches Err(m) && m@ == "Mutation failed: "@ + payload_text@),
{
    if success == Some(true) {
        Ok(())
    } else {
        let mut m = String::from_str("Mutation failed: ");
        m.append(payload_text);
        Err(m)
    }
}


/// The `issues` command.
pub struct IssuesCmd {
    pub action: IssuesAction,
}

/// What the `issues` command does.
pub enum IssuesAction {
    /// List issues, newest first; finished ones only with `show_done`.
    List { limit: i64, team: Option<String>, mine: bool, show_done: bool },
    /// Read one issue (identifier or UUID).
    Read { identifier: String },
    /// Full-text search; finished issues only with `show_done`.
    Search { query: String, limit: i64, show_done: bool },
    /// Create an issue in a team.
    Create {
        title: String,
        team: String,
        assignee: Option<String>,
        labels: Option<Vec<String>>,
        priority: Option<i64>,
        description: Option<String>,
        parent: Option<String>,
        status: Option<String>,
    },
    /// Change an issue.
    Update {
        identifier: String,
        status: Option<String>,
        priority: Option<i64>,
        labels: Option<Vec<String>>,
        label_by: LabelMode,
        clear_labels: bool,
        assignee: Option<String>,
        parent: Option<String>,
        title: Option<String>,
        description: Option<String>,
    },
}

/// Law: hiding finished issues twice hides nothing more.
pub proof fn law_filter_done_idempotent(items: Seq<IssueListItem>)
    ensures
        items.filter(not_done()).filter(not_done()) == items.filter(not_done()),
    decreases items.len(),
{
    reveal_with_fuel(Seq::<_>::filter, 1);
    if items.len() > 0 {
        law_filter_done_idempotent(items.drop_last());
        let p = not_done();
        let f = items.drop_last().filter(p);
        if p(items.last()) {
            f.lemma_filter_push(items.last(), p);
        }
    }
}

/// Law: the issues shown are issues that were given, and none of them is finished.
pub proof fn law_filter_done_keeps_unfinished(items: Seq<IssueListItem>, k: int)
    requires
        0 <= k < items.filter(not_done()).len(),
    ensures
        !is_done_state(state_name(items.filter(not_done())[k])),
        items.contains(items.filter(not_done())[k]),
{
    items.lemma_filter_pred(not_done(), k);
    let x = items.filter(not_done())[k];
    assert(items.filter(not_done()).contains(x));
    items.lemma_filter_contains_rev(not_done(), x);
}

} // verus!
