//! Resolving what the user typed (a key, a name, an identifier, or a UUID) to the
//! UUID of a team, user, issue, label, project, cycle, initiative, milestone or
//! workflow state, given the candidates that the API returned.
//!
//! Every lookup compares names without regard to ASCII case. A query that already
//! is a UUID resolves to itself wherever the commands allow it.

use vstd::prelude::*;
use crate::text::{
    eq_ic, eq_ignore_ascii_case, join, join_strings, opt_eq_ic, opt_eq_ignore_ascii_case, or_empty, or_text,
    text_or, text_or_empty, views,
};
use crate::ids::{is_uuid, uuid_text};
use crate::seqs::{
    first_match, lemma_filter_take_step, lemma_first_match, lemma_first_match_none,
    lemma_first_match_unique,
};

verus! {

/// A team as listed by the API.
pub struct TeamNode {
    pub id: Option<String>,
    pub key: Option<String>,
    pub name: Option<String>,
}

/// A user as listed by the API.
pub struct UserNode {
    pub id: Option<String>,
    pub name: Option<String>,
    pub display_name: Option<String>,
}

/// Anything that is looked up by its name alone: labels, projects, initiatives,
/// milestones and workflow states.
pub struct NamedNode {
    pub id: Option<String>,
    pub name: Option<String>,
}

/// An issue search hit: its UUID and its identifier such as `ENG-123`.
pub struct IssueNode {
    pub id: Option<String>,
    pub identifier: Option<String>,
}

/// A cycle as listed by the API; `number` is the cycle number as it is shown.
pub struct CycleNode {
    pub id: Option<String>,
    pub number: Option<String>,
    pub name: Option<String>,
}

/// The kind of thing a lookup was for.
#[derive(PartialEq, Eq, Structural, Clone, Copy, Debug)]
pub enum Entity {
    Team,
    Issue,
    User,
    Label,
    Project,
    Cycle,
    Initiative,
}

/// Why a lookup failed.
pub enum ResolveError {
    /// Nothing matched; no list of candidates is shown.
    NotFound { entity: Entity, query: String },
    /// Nothing matched; the candidates are listed.
    NotFoundAmong { entity: Entity, query: String, available: Vec<String> },
    /// More than one candidate matched.
    Ambiguous { entity: Entity, query: String, matches: Vec<String> },
    /// No workflow state of the team has the name.
    StatusNotFound { query: String, available: Vec<String> },
    /// No milestone of the project has the name.
    MilestoneNotFound { query: String, project: String, available: Vec<String> },
    /// A milestone was named without saying in which project.
    MilestoneNeedsProject,
    /// The authenticated user has no id.
    NoViewerId,
}

/// The capitalised word for an entity, as it opens a message.
pub open spec fn entity_title(e: Entity) -> Seq<char> {
    match e {
        Entity::Team => "Team"@,
        Entity::Issue => "Issue"@,
        Entity::User => "User"@,
        Entity::Label => "Label"@,
        Entity::Project => "Project"@,
        Entity::Cycle => "Cycle"@,
        Entity::Initiative => "Initiative"@,
    }
}

/// The lowercase word for an entity, as it stands inside a message.
pub open spec fn entity_word(e: Entity) -> Seq<char> {
    match e {
        Entity::Team => "team"@,
        Entity::Issue => "issue"@,
        Entity::User => "user"@,
        Entity::Label => "label"@,
        Entity::Project => "project"@,
        Entity::Cycle => "cycle"@,
        Entity::Initiative => "initiative"@,
    }
}

/// The message that a failed lookup is reported with.
pub open spec fn resolve_message(e: ResolveError) -> Seq<char> {
    match e {
        ResolveError::NotFound { entity, query } => entity_title(entity) + " '"@ + query@
            + "' not found"@,
        ResolveError::NotFoundAmong { entity, query, available } => entity_title(entity) + " '"@
            + query@ + "' not found. Available: "@ + join(views(available@), ", "@),
        ResolveError::Ambiguous { entity, query, matches } => "Ambiguous "@ + entity_word(entity)
            + " '"@ + query@ + "'. Matches: "@ + join(views(matches@), ", "@),
        ResolveError::StatusNotFound { query, available } => "Status '"@ + query@
            + "' not found for this team. Available: "@ + join(views(available@), ", "@),
        ResolveError::MilestoneNotFound { query, project, available } => if available@.len()
            == 0 {
            "Milestone '"@ + query@ + "' not found in project '"@ + project@ + "'"@
        } else {
            "Milestone '"@ + query@ + "' not found in project '"@ + project@ + "'. Available: "@
                + join(views(available@), ", "@)
        },
        ResolveError::MilestoneNeedsProject =>
            "Looking up milestones by name requires --project. Use a UUID to reference without --project."@,
        ResolveError::NoViewerId => "Could not determine authenticated user ID"@,
    }
}

/// The capitalised word for an entity.
pub fn entity_title_text(e: Entity) -> (r: String)
    ensures
        r@ == entity_title(e),
{
    match e {
        Entity::Team => String::from_str("Team"),
        Entity::Issue => String::from_str("Issue"),
        Entity::User => String::from_str("User"),
        Entity::Label => String::from_str("Label"),
        Entity::Project => String::from_str("Project"),
        Entity::Cycle => String::from_str("Cycle"),
        Entity::Initiative => String::from_str("Initiative"),
    }
}

/// The lowercase word for an entity.
pub fn entity_word_text(e: Entity) -> (r: String)
    ensures
        r@ == entity_word(e),
{
    match e {
        Entity::Team => String::from_str("team"),
        Entity::Issue => String::from_str("issue"),
        Entity::User => String::from_str("user"),
        Entity::Label => String::from_str("label"),
        Entity::Project => String::from_str("project"),
        Entity::Cycle => String::from_str("cycle"),
        Entity::Initiative => String::from_str("initiative"),
    }
}

impl ResolveError {
    /// The message that the failure is reported with.
    pub fn message(&self) -> (r: String)
        ensures
            r@ == resolve_message(*self),
    {
        match self {
            ResolveError::NotFound { entity, query } => {
                let mut m = entity_title_text(*entity);
                m.append(" '");
                m.append(query.as_str());
                m.append("' not found");
                m
            },
            ResolveError::NotFoundAmong { entity, query, available } => {
                let mut m = entity_title_text(*entity);
                m.append(" '");
                m.append(query.as_str());
                m.append("' not found. Available: ");
                let list = join_strings(available, ", ");
                m.append(list.as_str());
                m
            },
            ResolveError::Ambiguous { entity, query, matches } => {
                let mut m = String::from_str("Ambiguous ");
                let w = entity_word_text(*entity);
                m.append(w.as_str());
                m.append(" '");
                m.append(query.as_str());
                m.append("'. Matches: ");
                let list = join_strings(matches, ", ");
                m.append(list.as_str());
                m
            },
            ResolveError::StatusNotFound { query, available } => {
                let mut m = String::from_str("Status '");
                m.append(query.as_str());
                m.append("' not found for this team. Available: ");
                let list = join_strings(available, ", ");
                m.append(list.as_str());
                m
            },
            ResolveError::MilestoneNotFound { query, project, available } => {
                let mut m = String::from_str("Milestone '");
                m.append(query.as_str());
                m.append("' not found in project '");
                m.append(project.as_str());
                if available.len() == 0 {
                    m.append("'");
                } else {
                    m.append("'. Available: ");
                    let list = join_strings(available, ", ");
                    m.append(list.as_str());
                }
                m
            },
            ResolveError::MilestoneNeedsProject => String::from_str(
                "Looking up milestones by name requires --project. Use a UUID to reference without --project.",
            ),
            ResolveError::NoViewerId => String::from_str("Could not determine authenticated user ID"),
        }
    }
}

// ---------------------------------------------------------------------------
// Teams
// ---------------------------------------------------------------------------

/// A team matches a query when its key or its name equals the query, ignoring case.
pub open spec fn team_matches(q: Seq<char>) -> spec_fn(TeamNode) -> bool {
    |t: TeamNode| opt_eq_ic(t.key, q) || opt_eq_ic(t.name, q)
}

/// A team matches a query when its key equals the query, ignoring case.
pub open spec fn team_key_matches(q: Seq<char>) -> spec_fn(TeamNode) -> bool {
    |t: TeamNode| opt_eq_ic(t.key, q)
}

/// How a team is listed among the candidates: `KEY (Name)`, with `?` for what is missing.
pub open spec fn team_label(t: TeamNode) -> Seq<char> {
    or_text(t.key, "?"@) + " ("@ + or_text(t.name, "?"@) + ")"@
}

/// The listing of all candidate teams.
pub open spec fn team_labels(teams: Seq<TeamNode>) -> Seq<Seq<char>> {
    teams.map_values(|t: TeamNode| team_label(t))
}

/// What a team lookup among `teams` gives: the id of the first team whose key or
/// name matches (empty when that team has no id), or a not-found error that lists
/// every team. A UUID query resolves to itself.
pub open spec fn team_lookup(q: Seq<char>, teams: Seq<TeamNode>) -> Result<Seq<char>, Seq<char>> {
    if uuid_text(q) {
        Ok(q)
    } else {
        match first_match(teams, team_matches(q)) {
            Some(i) => Ok(or_empty(teams[i].id)),
            None => Err(entity_title(Entity::Team) + " '"@ + q + "' not found. Available: "@ + join(
                team_labels(teams),
                ", "@,
            )),
        }
    }
}

/// A result as text: the resolved id, or the error's message.
pub open spec fn outcome(r: Result<String, ResolveError>) -> Result<Seq<char>, Seq<char>> {
    match r {
        Ok(s) => Ok(s@),
        Err(e) => Err(resolve_message(e)),
    }
}

/// The candidate listing of one team.
pub fn team_label_text(t: &TeamNode) -> (r: String)
    ensures
        r@ == team_label(*t),
{
    let mut m = text_or(&t.key, "?");
    m.append(" (");
    let n = text_or(&t.name, "?");
    m.append(n.as_str());
    m.append(")");
    m
}

/// The candidate listing of all teams.
pub fn team_label_list(teams: &Vec<TeamNode>) -> (r: Vec<String>)
    ensures
        views(r@) == team_labels(teams@),
{
    let mut out: Vec<String> = Vec::new();
    let n = teams.len();
    let mut i: usize = 0;
    while i < n
        invariant
            n == teams@.len(),
            i <= n,
            views(out@) =~= team_labels(teams@.take(i as int)),
        decreases n - i,
    {
        let l = team_label_text(&teams[i]);
        out.push(l);
        assert(team_labels(teams@.take(i + 1)) =~= team_labels(teams@.take(i as int)).push(
            team_label(teams@[i as int]),
        ));
        i = i + 1;
    }
    assert(teams@.take(n as int) =~= teams@);
    out
}

/// The index of the first team whose key or name matches `q`.
fn first_team(q: &str, teams: &Vec<TeamNode>) -> (r: Option<usize>)
    ensures
        match r {
            Some(i) => i < teams@.len() && first_match(teams@, team_matches(q@)) == Some(i as int),
            None => first_match(teams@, team_matches(q@)) == None::<int>,
        },
{
    let n = teams.len();
    let mut i: usize = 0;
    while i < n
        invariant
            n == teams@.len(),
            i <= n,
            forall|j: int| 0 <= j < i ==> !(#[trigger] team_matches(q@)(teams@[j])),
        decreases n - i,
    {
        let t = &teams[i];
        if opt_eq_ignore_ascii_case(&t.key, q) || opt_eq_ignore_ascii_case(&t.name, q) {
            proof {
                lemma_first_match_unique(teams@, team_matches(q@), i as int);
            }
            return Some(i);
        }
        i = i + 1;
    }
    proof {
        lemma_first_match_none(teams@, team_matches(q@));
    }
    None
}

/// Resolves a team key, team name, or UUID among `teams`: a UUID is returned as it
/// is; otherwise the first team whose key or name matches, ignoring case.
pub fn resolve_team_among(team_key: &str, teams: &Vec<TeamNode>) -> (r: Result<String, ResolveError>)
    ensures
        outcome(r) == team_lookup(team_key@, teams@),
{
    if is_uuid(team_key) {
        return Ok(String::from_str(team_key));
    }
    match first_team(team_key, teams) {
        Some(i) => Ok(text_or_empty(&teams[i].id)),
        None => {
            let available = team_label_list(teams);
            let e = ResolveError::NotFoundAmong {
                entity: Entity::Team,
                query: String::from_str(team_key),
                available,
            };
            proof {
                assert(views(available@) == team_labels(teams@));
            }
            Err(e)
        },
    }
}


/// The ids of several team keys, names or UUIDs: the first key that fails decides
/// the error; otherwise every key's result in order.
pub open spec fn lookup_all(
    keys: Seq<Seq<char>>,
    f: spec_fn(Seq<char>) -> Result<Seq<char>, Seq<char>>,
) -> Result<Seq<Seq<char>>, Seq<char>>
    decreases keys.len(),
{
    if keys.len() == 0 {
        Ok(Seq::empty())
    } else {
        match lookup_all(keys.drop_last(), f) {
            Err(m) => Err(m),
            Ok(ids) => match f(keys.last()) {
                Ok(id) => Ok(ids.push(id)),
                Err(m) => Err(m),
            },
        }
    }
}

/// A list result as text.
pub open spec fn outcome_all(r: Result<Vec<String>, ResolveError>) -> Result<
    Seq<Seq<char>>,
    Seq<char>,
> {
    match r {
        Ok(v) => Ok(views(v@)),
        Err(e) => Err(resolve_message(e)),
    }
}

/// Resolves several team keys, names or UUIDs among `teams`, each as
/// `resolve_team_among` does; the first that fails is reported.
pub fn resolve_teams_among(keys: &Vec<String>, teams: &Vec<TeamNode>) -> (r: Result<
    Vec<String>,
    ResolveError,
>)
    ensures
        outcome_all(r) == lookup_all(views(keys@), |q: Seq<char>| team_lookup(q, teams@)),
{
    let ghost f = |q: Seq<char>| team_lookup(q, teams@);
    let ghost ks = views(keys@);
    let mut out: Vec<String> = Vec::new();
    assert(ks.take(0) =~= Seq::<Seq<char>>::empty());
    assert(views(out@) =~= Seq::<Seq<char>>::empty());
    let n = keys.len();
    let mut i: usize = 0;
    while i < n
        invariant
            n == keys@.len(),
            ks == views(keys@),
            f == (|q: Seq<char>| team_lookup(q, teams@)),
            i <= n,
            lookup_all(ks.take(i as int), f) == Ok::<Seq<Seq<char>>, Seq<char>>(views(out@)),
        decreases n - i,
    {
        assert(ks.take(i + 1).drop_last() =~= ks.take(i as int));
        assert(ks.take(i + 1).last() == keys@[i as int]@);
        let ghost before = out@;
        assert(f(ks[i as int]) == team_lookup(keys@[i as int]@, teams@));
        match resolve_team_among(keys[i].as_str(), teams) {
            Ok(id) => {
                out.push(id);
                assert(views(out@) =~= views(before).push(id@));
            },
            Err(e) => {
                proof {
                    lemma_lookup_all_error_prefix(ks, f, i + 1);
                }
                return Err(e);
            },
        }
        i = i + 1;
    }
    assert(ks.take(n as int) =~= ks);
    Ok(out)
}

/// An error within a prefix is the error of the whole list.
pub proof fn lemma_lookup_all_error_prefix(
    keys: Seq<Seq<char>>,
    f: spec_fn(Seq<char>) -> Result<Seq<char>, Seq<char>>,
    k: int,
)
    requires
        0 <= k <= keys.len(),
        lookup_all(keys.take(k), f) is Err,
    ensures
        lookup_all(keys, f) == lookup_all(keys.take(k), f),
    decreases keys.len() - k,
{
    if k < keys.len() {
        assert(keys.take(k + 1).drop_last() =~= keys.take(k));
        lemma_lookup_all_error_prefix(keys, f, k + 1);
    } else {
        assert(keys.take(k) =~= keys);
    }
}

/// The first team whose key alone matches `q`.
fn first_team_by_key(q: &str, teams: &Vec<TeamNode>) -> (r: Option<usize>)
    ensures
        match r {
            Some(i) => i < teams@.len() && first_match(teams@, team_key_matches(q@)) == Some(
                i as int,
            ),
            None => first_match(teams@, team_key_matches(q@)) == None::<int>,
        },
{
    let n = teams.len();
    let mut i: usize = 0;
    while i < n
        invariant
            n == teams@.len(),
            i <= n,
            forall|j: int| 0 <= j < i ==> !(#[trigger] team_key_matches(q@)(teams@[j])),
        decreases n - i,
    {
        if opt_eq_ignore_ascii_case(&teams[i].key, q) {
            proof {
                lemma_first_match_unique(teams@, team_key_matches(q@), i as int);
            }
            return Some(i);
        }
        i = i + 1;
    }
    proof {
        lemma_first_match_none(teams@, team_key_matches(q@));
    }
    None
}

/// What a lookup by team key alone gives: a UUID resolves to itself; otherwise the
/// id of the first team whose key matches, or a not-found error without a listing.
pub open spec fn team_key_lookup(q: Seq<char>, teams: Seq<TeamNode>) -> Result<
    Seq<char>,
    Seq<char>,
> {
    if uuid_text(q) {
        Ok(q)
    } else {
        match first_match(teams, team_key_matches(q)) {
            Some(i) => Ok(or_empty(teams[i].id)),
            None => Err(entity_title(Entity::Team) + " '"@ + q + "' not found"@),
        }
    }
}

/// Resolves a team key (not a name) or UUID among `teams`, as the issue commands do.
pub fn resolve_team_key_among(team_key: &str, teams: &Vec<TeamNode>) -> (r: Result<
    String,
    ResolveError,
>)
    ensures
        outcome(r) == team_key_lookup(team_key@, teams@),
{
    if is_uuid(team_key) {
        return Ok(String::from_str(team_key));
    }
    match first_team_by_key(team_key, teams) {
        Some(i) => Ok(text_or_empty(&teams[i].id)),
        None => Err(ResolveError::NotFound { entity: Entity::Team, query: String::from_str(team_key) }),
    }
}

// ---------------------------------------------------------------------------
// Named things: labels, projects, initiatives, milestones, workflow states
// ---------------------------------------------------------------------------

/// A named node matches a query when its name equals the query, ignoring case.
pub open spec fn name_matches(q: Seq<char>) -> spec_fn(NamedNode) -> bool {
    |n: NamedNode| opt_eq_ic(n.name, q)
}

/// The names that are present, in order.
pub open spec fn present_names(s: Seq<NamedNode>) -> Seq<Seq<char>>
    decreases s.len(),
{
    if s.len() == 0 {
        Seq::empty()
    } else {
        let rest = present_names(s.drop_last());
        match s.last().name {
            Some(n) => rest.push(n@),
            None => rest,
        }
    }
}

/// The names that are present, in order.
pub fn present_name_list(nodes: &Vec<NamedNode>) -> (r: Vec<String>)
    ensures
        views(r@) == present_names(nodes@),
{
    let mut out: Vec<String> = Vec::new();
    let n = nodes.len();
    let mut i: usize = 0;
    while i < n
        invariant
            n == nodes@.len(),
            i <= n,
            views(out@) =~= present_names(nodes@.take(i as int)),
        decreases n - i,
    {
        assert(nodes@.take(i + 1).drop_last() =~= nodes@.take(i as int));
        assert(nodes@.take(i + 1).last() == nodes@[i as int]);
        match &nodes[i].name {
            Some(name) => {
                out.push(name.clone());
                assert(views(out@) =~= views(out@.drop_last()).push(name@));
            },
            None => {},
        }
        i = i + 1;
    }
    assert(nodes@.take(n as int) =~= nodes@);
    out
}

/// The first node whose name matches `q`.
fn first_named(q: &str, nodes: &Vec<NamedNode>) -> (r: Option<usize>)
    ensures
        match r {
            Some(i) => i < nodes@.len() && first_match(nodes@, name_matches(q@)) == Some(i as int),
            None => first_match(nodes@, name_matches(q@)) == None::<int>,
        },
{
    let n = nodes.len();
    let mut i: usize = 0;
    while i < n
        invariant
            n == nodes@.len(),
            i <= n,
            forall|j: int| 0 <= j < i ==> !(#[trigger] name_matches(q@)(nodes@[j])),
        decreases n - i,
    {
        if opt_eq_ignore_ascii_case(&nodes[i].name, q) {
            proof {
                lemma_first_match_unique(nodes@, name_matches(q@), i as int);
            }
            return Some(i);
        }
        i = i + 1;
    }
    proof {
        lemma_first_match_none(nodes@, name_matches(q@));
    }
    None
}

/// What a label lookup gives: a UUID resolves to itself; otherwise the id of the
/// first label with the name, or a not-found error listing the label names.
pub open spec fn label_lookup(q: Seq<char>, labels: Seq<NamedNode>) -> Result<
    Seq<char>,
    Seq<char>,
> {
    if uuid_text(q) {
        Ok(q)
    } else {
        match first_match(labels, name_matches(q)) {
            Some(i) => Ok(or_empty(labels[i].id)),
            None => Err(entity_title(Entity::Label) + " '"@ + q + "' not found. Available: "@
                + join(present_names(labels), ", "@)),
        }
    }
}

/// Resolves one label name or UUID among `labels`.
pub fn resolve_label_among(q: &str, labels: &Vec<NamedNode>) -> (r: Result<String, ResolveError>)
    ensures
        outcome(r) == label_lookup(q@, labels@),
{
    if is_uuid(q) {
        return Ok(String::from_str(q));
    }
    match first_named(q, labels) {
        Some(i) => Ok(text_or_empty(&labels[i].id)),
        None => {
            let available = present_name_list(labels);
            Err(ResolveError::NotFoundAmong { entity: Entity::Label, query: String::from_str(q), available })
        },
    }
}

/// Resolves several label names or UUIDs among `labels`; the first that fails is
/// reported.
pub fn resolve_labels_among(items: &Vec<String>, labels: &Vec<NamedNode>) -> (r: Result<
    Vec<String>,
    ResolveError,
>)
    ensures
        outcome_all(r) == lookup_all(views(items@), |q: Seq<char>| label_lookup(q, labels@)),
{
    let ghost f = |q: Seq<char>| label_lookup(q, labels@);
    let ghost ks = views(items@);
    let mut out: Vec<String> = Vec::new();
    assert(ks.take(0) =~= Seq::<Seq<char>>::empty());
    assert(views(out@) =~= Seq::<Seq<char>>::empty());
    let n = items.len();
    let mut i: usize = 0;
    while i < n
        invariant
            n == items@.len(),
            ks == views(items@),
            f == (|q: Seq<char>| label_lookup(q, labels@)),
            i <= n,
            lookup_all(ks.take(i as int), f) == Ok::<Seq<Seq<char>>, Seq<char>>(views(out@)),
        decreases n - i,
    {
        assert(ks.take(i + 1).drop_last() =~= ks.take(i as int));
        assert(ks.take(i + 1).last() == items@[i as int]@);
        let ghost before = out@;
        assert(f(ks[i as int]) == label_lookup(items@[i as int]@, labels@));
        match resolve_label_among(items[i].as_str(), labels) {
            Ok(id) => {
                out.push(id);
                assert(views(out@) =~= views(before).push(id@));
            },
            Err(e) => {
                proof {
                    lemma_lookup_all_error_prefix(ks, f, i + 1);
                }
                return Err(e);
            },
        }
        i = i + 1;
    }
    assert(ks.take(n as int) =~= ks);
    Ok(out)
}

/// What a lookup that needs exactly one match gives (projects, initiatives): a UUID
/// resolves to itself; one match gives its id; none lists every name; several list
/// the matching names.
pub open spec fn unique_name_lookup(entity: Entity, q: Seq<char>, nodes: Seq<NamedNode>) -> Result<
    Seq<char>,
    Seq<char>,
> {
    if uuid_text(q) {
        Ok(q)
    } else {
        let m = nodes.filter(name_matches(q));
        if m.len() == 0 {
            Err(entity_title(entity) + " '"@ + q + "' not found. Available: "@ + join(
                present_names(nodes),
                ", "@,
            ))
        } else if m.len() == 1 {
            Ok(or_empty(m[0].id))
        } else {
            Err("Ambiguous "@ + entity_word(entity) + " '"@ + q + "'. Matches: "@ + join(
                present_names(m),
                ", "@,
            ))
        }
    }
}

/// Resolves a project or initiative name (or UUID) that must match exactly one node.
pub fn resolve_unique_name_among(entity: Entity, q: &str, nodes: &Vec<NamedNode>) -> (r: Result<
    String,
    ResolveError,
>)
    ensures
        outcome(r) == unique_name_lookup(entity, q@, nodes@),
{
    if is_uuid(q) {
        return Ok(String::from_str(q));
    }
    let ghost p = name_matches(q@);
    let mut names: Vec<String> = Vec::new();
    let mut first_id: String = String::new();
    let n = nodes.len();
    let mut i: usize = 0;
    while i < n
        invariant
            n == nodes@.len(),
            p == name_matches(q@),
            i <= n,
            views(names@) =~= present_names(nodes@.take(i as int).filter(p)),
            present_names(nodes@.take(i as int).filter(p)).len() == nodes@.take(i as int).filter(
                p,
            ).len(),
            nodes@.take(i as int).filter(p).len() > 0 ==> first_id@ == or_empty(
                nodes@.take(i as int).filter(p)[0].id,
            ),
        decreases n - i,
    {
        proof {
            lemma_filter_take_step(nodes@, p, i as int);
        }
        let node = &nodes[i];
        if opt_eq_ignore_ascii_case(&node.name, q) {
            let ghost before = nodes@.take(i as int).filter(p);
            assert(nodes@.take(i + 1).filter(p) == before.push(nodes@[i as int]));
            assert(before.push(nodes@[i as int]).drop_last() =~= before);
            if names.len() == 0 {
                first_id = text_or_empty(&node.id);
            }
            match &node.name {
                Some(nm) => {
                    names.push(nm.clone());
                    assert(views(names@) =~= views(names@.drop_last()).push(nm@));
                },
                None => {},
            }
        }
        i = i + 1;
    }
    assert(nodes@.take(n as int) =~= nodes@);
    if names.len() == 0 {
        let available = present_name_list(nodes);
        Err(ResolveError::NotFoundAmong { entity, query: String::from_str(q), available })
    } else if names.len() == 1 {
        Ok(first_id)
    } else {
        Err(ResolveError::Ambiguous { entity, query: String::from_str(q), matches: names })
    }
}


// ---------------------------------------------------------------------------
// Users
// ---------------------------------------------------------------------------

/// A user matches a query when the name or the display name equals it, ignoring case.
pub open spec fn user_matches(q: Seq<char>) -> spec_fn(UserNode) -> bool {
    |u: UserNode| opt_eq_ic(u.name, q) || opt_eq_ic(u.display_name, q)
}

/// How a matching user is listed: `name (display name)`, with `?` for what is missing.
pub open spec fn user_label(u: UserNode) -> Seq<char> {
    or_text(u.name, "?"@) + " ("@ + or_text(u.display_name, "?"@) + ")"@
}

/// What a user lookup gives: a UUID resolves to itself; exactly one user whose name
/// or display name matches gives its id; none is an error; several are an error
/// listing them.
pub open spec fn user_lookup(q: Seq<char>, users: Seq<UserNode>) -> Result<Seq<char>, Seq<char>> {
    if uuid_text(q) {
        Ok(q)
    } else {
        let m = users.filter(user_matches(q));
        if m.len() == 0 {
            Err(entity_title(Entity::User) + " '"@ + q + "' not found"@)
        } else if m.len() == 1 {
            Ok(or_empty(m[0].id))
        } else {
            Err("Ambiguous "@ + entity_word(Entity::User) + " '"@ + q + "'. Matches: "@ + join(
                m.map_values(|u: UserNode| user_label(u)),
                ", "@,
            ))
        }
    }
}

/// How a user is listed among several matches.
pub fn user_label_text(u: &UserNode) -> (r: String)
    ensures
        r@ == user_label(*u),
{
    let mut m = text_or(&u.name, "?");
    m.append(" (");
    let d = text_or(&u.display_name, "?");
    m.append(d.as_str());
    m.append(")");
    m
}

/// Resolves a user name, display name, or UUID among `users`.
pub fn resolve_user_among(q: &str, users: &Vec<UserNode>) -> (r: Result<String, ResolveError>)
    ensures
        outcome(r) == user_lookup(q@, users@),
        !uuid_text(q@) ==> (r is Ok <==> users@.filter(user_matches(q@)).len() == 1),
{
    if is_uuid(q) {
        return Ok(String::from_str(q));
    }
    let ghost p = user_matches(q@);
    let mut labels: Vec<String> = Vec::new();
    let mut first_id: String = String::new();
    let n = users.len();
    let mut i: usize = 0;
    assert(users@.take(0).filter(p) =~= Seq::<UserNode>::empty()) by {
        reveal_with_fuel(Seq::<_>::filter, 1);
    }
    while i < n
        invariant
            n == users@.len(),
            p == user_matches(q@),
            i <= n,
            views(labels@) =~= users@.take(i as int).filter(p).map_values(
                |u: UserNode| user_label(u),
            ),
            users@.take(i as int).filter(p).len() > 0 ==> first_id@ == or_empty(
                users@.take(i as int).filter(p)[0].id,
            ),
        decreases n - i,
    {
        proof {
            lemma_filter_take_step(users@, p, i as int);
        }
        let u = &users[i];
        if opt_eq_ignore_ascii_case(&u.name, q) || opt_eq_ignore_ascii_case(&u.display_name, q) {
            let ghost before = users@.take(i as int).filter(p);
            let ghost old_labels = labels@;
            assert(users@.take(i + 1).filter(p) == before.push(users@[i as int]));
            if labels.len() == 0 {
                first_id = text_or_empty(&u.id);
            }
            let l = user_label_text(u);
            labels.push(l);
            assert(views(labels@) =~= views(old_labels).push(l@));
            assert(before.push(users@[i as int]).map_values(|u: UserNode| user_label(u))
                =~= before.map_values(|u: UserNode| user_label(u)).push(user_label(users@[i as int])));
        }
        i = i + 1;
    }
    assert(users@.take(n as int) =~= users@);
    if labels.len() == 0 {
        Err(ResolveError::NotFound { entity: Entity::User, query: String::from_str(q) })
    } else if labels.len() == 1 {
        Ok(first_id)
    } else {
        Err(ResolveError::Ambiguous { entity: Entity::User, query: String::from_str(q), matches: labels })
    }
}

/// Whether a user reference is the alias `me` (in any case).
pub open spec fn is_me(q: Seq<char>) -> bool {
    eq_ic(q, "me"@)
}

/// Whether `q` is the alias `me`, which stands for the authenticated user.
pub fn is_me_alias(q: &str) -> (r: bool)
    ensures
        r == is_me(q@),
{
    eq_ignore_ascii_case(q, "me")
}

/// Whether any of the references is the alias `me`.
pub fn any_me_alias(items: &Vec<String>) -> (r: bool)
    ensures
        r == exists|i: int| 0 <= i < items@.len() && is_me(#[trigger] items@[i]@),
{
    let n = items.len();
    let mut i: usize = 0;
    while i < n
        invariant
            n == items@.len(),
            i <= n,
            forall|j: int| 0 <= j < i ==> !is_me(#[trigger] items@[j]@),
        decreases n - i,
    {
        if is_me_alias(items[i].as_str()) {
            return true;
        }
        i = i + 1;
    }
    false
}

/// The authenticated user's id, which `me` resolves to; an error when it is missing.
pub fn viewer_user_id(id: Option<String>) -> (r: Result<String, ResolveError>)
    ensures
        match id {
            Some(s) => r == Ok::<String, ResolveError>(s),
            None => r matches Err(ResolveError::NoViewerId),
        },
{
    match id {
        Some(s) => Ok(s),
        None => Err(ResolveError::NoViewerId),
    }
}

// ---------------------------------------------------------------------------
// Issues
// ---------------------------------------------------------------------------

/// An issue matches when its identifier equals the query, ignoring case.
pub open spec fn identifier_matches(q: Seq<char>) -> spec_fn(IssueNode) -> bool {
    |n: IssueNode| opt_eq_ic(n.identifier, q)
}

/// What an issue lookup gives: a UUID resolves to itself; otherwise the first search
/// hit whose identifier matches must carry an id, else the issue is not found.
pub open spec fn issue_lookup(q: Seq<char>, hits: Seq<IssueNode>) -> Result<Seq<char>, Seq<char>> {
    if uuid_text(q) {
        Ok(q)
    } else {
        match first_match(hits, identifier_matches(q)) {
            Some(i) => match hits[i].id {
                Some(id) => Ok(id@),
                None => Err(entity_title(Entity::Issue) + " '"@ + q + "' not found"@),
            },
            None => Err(entity_title(Entity::Issue) + " '"@ + q + "' not found"@),
        }
    }
}

/// Resolves an issue identifier such as `ENG-123` (or a UUID) among search hits.
pub fn resolve_issue_among(q: &str, hits: &Vec<IssueNode>) -> (r: Result<String, ResolveError>)
    ensures
        outcome(r) == issue_lookup(q@, hits@),
{
    if is_uuid(q) {
        return Ok(String::from_str(q));
    }
    let n = hits.len();
    let mut i: usize = 0;
    while i < n
        invariant
            n == hits@.len(),
            !uuid_text(q@),
            i <= n,
            forall|j: int| 0 <= j < i ==> !(#[trigger] identifier_matches(q@)(hits@[j])),
        decreases n - i,
    {
        if opt_eq_ignore_ascii_case(&hits[i].identifier, q) {
            proof {
                lemma_first_match_unique(hits@, identifier_matches(q@), i as int);
            }
            match &hits[i].id {
                Some(id) => {
                    return Ok(id.clone());
                },
                None => {
                    let e = ResolveError::NotFound { entity: Entity::Issue, query: String::from_str(q) };
                    assert(resolve_message(e) == issue_lookup(q@, hits@)->Err_0);
                    return Err(e);
                },
            }
        }
        i = i + 1;
    }
    proof {
        lemma_first_match_none(hits@, identifier_matches(q@));
    }
    let e = ResolveError::NotFound { entity: Entity::Issue, query: String::from_str(q) };
    assert(resolve_message(e) == issue_lookup(q@, hits@)->Err_0);
    Err(e)
}

// ---------------------------------------------------------------------------
// Cycles
// ---------------------------------------------------------------------------

/// A cycle matches when its name equals the query, ignoring case.
pub open spec fn cycle_name_matches(q: Seq<char>) -> spec_fn(CycleNode) -> bool {
    |c: CycleNode| opt_eq_ic(c.name, q)
}

/// How a cycle is listed: `#number name`, with `?` and `(unnamed)` for what is missing.
pub open spec fn cycle_label(c: CycleNode) -> Seq<char> {
    "#"@ + or_text(c.number, "?"@) + " "@ + or_text(c.name, "(unnamed)"@)
}

/// What a lookup of a cycle by name gives (a match by number is tried before this):
/// a UUID resolves to itself; otherwise the first cycle with the name, or an error
/// that lists every cycle.
pub open spec fn cycle_name_lookup(q: Seq<char>, cycles: Seq<CycleNode>) -> Result<
    Seq<char>,
    Seq<char>,
> {
    if uuid_text(q) {
        Ok(q)
    } else {
        match first_match(cycles, cycle_name_matches(q)) {
            Some(i) => Ok(or_empty(cycles[i].id)),
            None => Err(entity_title(Entity::Cycle) + " '"@ + q + "' not found. Available: "@
                + join(cycle_labels(cycles), ", "@)),
        }
    }
}

/// The listing of all cycles.
pub open spec fn cycle_labels(cycles: Seq<CycleNode>) -> Seq<Seq<char>> {
    cycles.map_values(|c: CycleNode| cycle_label(c))
}

/// How one cycle is listed.
pub fn cycle_label_text(c: &CycleNode) -> (r: String)
    ensures
        r@ == cycle_label(*c),
{
    let mut m = String::from_str("#");
    let num = text_or(&c.number, "?");
    m.append(num.as_str());
    m.append(" ");
    let name = text_or(&c.name, "(unnamed)");
    m.append(name.as_str());
    m
}

/// Resolves a cycle name (or UUID) among the team's cycles.
pub fn resolve_cycle_by_name_among(q: &str, cycles: &Vec<CycleNode>) -> (r: Result<
    String,
    ResolveError,
>)
    ensures
        outcome(r) == cycle_name_lookup(q@, cycles@),
{
    if is_uuid(q) {
        return Ok(String::from_str(q));
    }
    let n = cycles.len();
    let mut i: usize = 0;
    while i < n
        invariant
            n == cycles@.len(),
            !uuid_text(q@),
            i <= n,
            forall|j: int| 0 <= j < i ==> !(#[trigger] cycle_name_matches(q@)(cycles@[j])),
        decreases n - i,
    {
        if opt_eq_ignore_ascii_case(&cycles[i].name, q) {
            proof {
                lemma_first_match_unique(cycles@, cycle_name_matches(q@), i as int);
            }
            return Ok(text_or_empty(&cycles[i].id));
        }
        i = i + 1;
    }
    proof {
        lemma_first_match_none(cycles@, cycle_name_matches(q@));
    }
    let mut available: Vec<String> = Vec::new();
    let mut k: usize = 0;
    while k < n
        invariant
            n == cycles@.len(),
            k <= n,
            views(available@) =~= cycle_labels(cycles@.take(k as int)),
        decreases n - k,
    {
        let l = cycle_label_text(&cycles[k]);
        let ghost before = available@;
        available.push(l);
        assert(views(available@) =~= views(before).push(l@));
        assert(cycle_labels(cycles@.take(k + 1)) =~= cycle_labels(cycles@.take(k as int)).push(
            cycle_label(cycles@[k as int]),
        ));
        k = k + 1;
    }
    assert(cycles@.take(n as int) =~= cycles@);
    Err(ResolveError::NotFoundAmong { entity: Entity::Cycle, query: String::from_str(q), available })
}

// ---------------------------------------------------------------------------
// Workflow states and milestones
// ---------------------------------------------------------------------------

/// A workflow state matches when its name (empty when missing) equals the query,
/// ignoring case.
pub open spec fn state_matches(q: Seq<char>) -> spec_fn(NamedNode) -> bool {
    |n: NamedNode| eq_ic(or_empty(n.name), q)
}

/// What a workflow state lookup gives: the id (empty when missing) of the first
/// state with the name, or an error listing the state names.
pub open spec fn state_lookup(q: Seq<char>, states: Seq<NamedNode>) -> Result<Seq<char>, Seq<char>> {
    match first_match(states, state_matches(q)) {
        Some(i) => Ok(or_empty(states[i].id)),
        None => Err("Status '"@ + q + "' not found for this team. Available: "@ + join(
            present_names(states),
            ", "@,
        )),
    }
}

/// Resolves a workflow state name among the team's states.
pub fn resolve_state_among(q: &str, states: &Vec<NamedNode>) -> (r: Result<String, ResolveError>)
    ensures
        outcome(r) == state_lookup(q@, states@),
{
    let n = states.len();
    let mut i: usize = 0;
    while i < n
        invariant
            n == states@.len(),
            i <= n,
            forall|j: int| 0 <= j < i ==> !(#[trigger] state_matches(q@)(states@[j])),
        decreases n - i,
    {
        let name = text_or_empty(&states[i].name);
        if eq_ignore_ascii_case(name.as_str(), q) {
            proof {
                lemma_first_match_unique(states@, state_matches(q@), i as int);
            }
            return Ok(text_or_empty(&states[i].id));
        }
        i = i + 1;
    }
    proof {
        lemma_first_match_none(states@, state_matches(q@));
    }
    let available = present_name_list(states);
    Err(ResolveError::StatusNotFound { query: String::from_str(q), available })
}

/// The first step of a milestone lookup: a UUID resolves to itself (`Ok(Some)`), a
/// name needs the project (`Err` without one), otherwise the project's milestones
/// must be fetched (`Ok(None)`).
pub fn milestone_lookup_start(q: &str, project: &Option<String>) -> (r: Result<
    Option<String>,
    ResolveError,
>)
    ensures
        uuid_text(q@) ==> (r matches Ok(Some(s)) && s@ == q@),
        !uuid_text(q@) && project is None ==> (r matches Err(ResolveError::MilestoneNeedsProject)),
        !uuid_text(q@) && project is Some ==> r matches Ok(None),
{
    if is_uuid(q) {
        return Ok(Some(String::from_str(q)));
    }
    match project {
        None => Err(ResolveError::MilestoneNeedsProject),
        Some(_) => Ok(None),
    }
}

/// What a milestone lookup by name gives among the project's milestones: the id of
/// the first milestone with the name (an error when that one has no id), or an
/// error naming the project and listing the milestone names, if there are any.
pub open spec fn milestone_lookup(q: Seq<char>, project: Seq<char>, ms: Seq<NamedNode>) -> Result<
    Seq<char>,
    Seq<char>,
> {
    let missing = if present_names(ms).len() == 0 {
        "Milestone '"@ + q + "' not found in project '"@ + project + "'"@
    } else {
        "Milestone '"@ + q + "' not found in project '"@ + project + "'. Available: "@ + join(
            present_names(ms),
            ", "@,
        )
    };
    match first_match(ms, name_matches(q)) {
        Some(i) => match ms[i].id {
            Some(id) => Ok(id@),
            None => Err(missing),
        },
        None => Err(missing),
    }
}

/// Resolves a milestone name among the milestones of the named project.
pub fn resolve_milestone_among(q: &str, project: &str, ms: &Vec<NamedNode>) -> (r: Result<
    String,
    ResolveError,
>)
    ensures
        outcome(r) == milestone_lookup(q@, project@, ms@),
{
    match first_named(q, ms) {
        Some(i) => {
            match &ms[i].id {
                Some(id) => {
                    return Ok(id.clone());
                },
                None => {},
            }
        },
        None => {},
    }
    let available = present_name_list(ms);
    Err(
        ResolveError::MilestoneNotFound {
            query: String::from_str(q),
            project: String::from_str(project),
            available,
        },
    )
}


// ---------------------------------------------------------------------------
// Laws
// ---------------------------------------------------------------------------

/// Law: team lookups ignore the case of the query: two queries that differ only
/// in ASCII case pick the same team.
pub proof fn law_team_match_ignores_case(q1: Seq<char>, q2: Seq<char>, teams: Seq<TeamNode>)
    requires
        eq_ic(q1, q2),
    ensures
        first_match(teams, team_matches(q1)) == first_match(teams, team_matches(q2)),
{
    assert(team_matches(q1) =~= team_matches(q2));
}

/// Law: name lookups (labels, projects, initiatives, milestones) ignore the case
/// of the query.
pub proof fn law_name_match_ignores_case(q1: Seq<char>, q2: Seq<char>, nodes: Seq<NamedNode>)
    requires
        eq_ic(q1, q2),
    ensures
        first_match(nodes, name_matches(q1)) == first_match(nodes, name_matches(q2)),
        nodes.filter(name_matches(q1)) == nodes.filter(name_matches(q2)),
{
    assert(name_matches(q1) =~= name_matches(q2));
}

/// Law: user lookups ignore the case of the query.
pub proof fn law_user_match_ignores_case(q1: Seq<char>, q2: Seq<char>, users: Seq<UserNode>)
    requires
        eq_ic(q1, q2),
    ensures
        users.filter(user_matches(q1)) == users.filter(user_matches(q2)),
{
    assert(user_matches(q1) =~= user_matches(q2));
}

/// A lookup that resolves every UUID to itself resolves a list of UUIDs to itself.
proof fn lemma_lookup_all_uuids(keys: Seq<Seq<char>>, f: spec_fn(Seq<char>) -> Result<Seq<char>, Seq<char>>)
    requires
        forall|i: int| 0 <= i < keys.len() ==> uuid_text(#[trigger] keys[i]),
        forall|q: Seq<char>| uuid_text(q) ==> #[trigger] f(q) == Ok::<Seq<char>, Seq<char>>(q),
    ensures
        lookup_all(keys, f) == Ok::<Seq<Seq<char>>, Seq<char>>(keys),
    decreases keys.len(),
{
    if keys.len() > 0 {
        lemma_lookup_all_uuids(keys.drop_last(), f);
        assert(uuid_text(keys[keys.len() - 1]));
        assert(f(keys.last()) == Ok::<Seq<char>, Seq<char>>(keys.last()));
        assert(keys.drop_last().push(keys.last()) =~= keys);
    } else {
        assert(keys =~= Seq::<Seq<char>>::empty());
    }
}

/// Law: a list of team references that are all UUIDs resolves to itself, whatever
/// the teams are, so no team needs to be fetched.
pub proof fn law_team_uuids_resolve_to_themselves(keys: Seq<Seq<char>>, teams: Seq<TeamNode>)
    requires
        forall|i: int| 0 <= i < keys.len() ==> uuid_text(#[trigger] keys[i]),
    ensures
        lookup_all(keys, |q: Seq<char>| team_lookup(q, teams)) == Ok::<Seq<Seq<char>>, Seq<char>>(keys),
{
    lemma_lookup_all_uuids(keys, |q: Seq<char>| team_lookup(q, teams));
}

/// Law: a list of label references that are all UUIDs resolves to itself, whatever
/// the labels are, so no label needs to be fetched.
pub proof fn law_label_uuids_resolve_to_themselves(keys: Seq<Seq<char>>, labels: Seq<NamedNode>)
    requires
        forall|i: int| 0 <= i < keys.len() ==> uuid_text(#[trigger] keys[i]),
    ensures
        lookup_all(keys, |q: Seq<char>| label_lookup(q, labels)) == Ok::<Seq<Seq<char>>, Seq<char>>(keys),
{
    lemma_lookup_all_uuids(keys, |q: Seq<char>| label_lookup(q, labels));
}

/// Law: a UUID always works as a fallback: every lookup that accepts UUIDs resolves
/// one to itself, whatever candidates were fetched.
pub proof fn law_uuid_resolves_to_itself(
    q: Seq<char>,
    entity: Entity,
    teams: Seq<TeamNode>,
    users: Seq<UserNode>,
    nodes: Seq<NamedNode>,
    hits: Seq<IssueNode>,
    cycles: Seq<CycleNode>,
)
    requires
        uuid_text(q),
    ensures
        team_lookup(q, teams) == Ok::<Seq<char>, Seq<char>>(q),
        team_key_lookup(q, teams) == Ok::<Seq<char>, Seq<char>>(q),
        label_lookup(q, nodes) == Ok::<Seq<char>, Seq<char>>(q),
        unique_name_lookup(entity, q, nodes) == Ok::<Seq<char>, Seq<char>>(q),
        user_lookup(q, users) == Ok::<Seq<char>, Seq<char>>(q),
        issue_lookup(q, hits) == Ok::<Seq<char>, Seq<char>>(q),
        cycle_name_lookup(q, cycles) == Ok::<Seq<char>, Seq<char>>(q),
{
}

/// Law: a user lookup that is not a UUID succeeds exactly when one user, counted
/// once, has the query as name or display name (ignoring case), and then gives the
/// id of a user who has it.
pub proof fn law_user_lookup_needs_one_user(q: Seq<char>, users: Seq<UserNode>)
    requires
        !uuid_text(q),
    ensures
        user_lookup(q, users) is Ok <==> users.filter(
            |u: UserNode| opt_eq_ic(u.name, q) || opt_eq_ic(u.display_name, q),
        ).len() == 1,
        user_lookup(q, users) matches Ok(x) ==> exists|i: int|
            0 <= i < users.len() && (opt_eq_ic(users[i].name, q) || opt_eq_ic(
                users[i].display_name,
                q,
            )) && x == or_empty(#[trigger] users[i].id),
{
    let p = |u: UserNode| opt_eq_ic(u.name, q) || opt_eq_ic(u.display_name, q);
    assert(user_matches(q) =~= p);
    let m = users.filter(p);
    if m.len() == 1 {
        users.lemma_filter_pred(p, 0);
        assert(m.contains(m[0]));
        users.lemma_filter_contains_rev(p, m[0]);
        let i = choose|i: int| 0 <= i < users.len() && users[i] == m[0];
        assert(users[i].id == m[0].id);
    }
}

/// Law: a project or initiative lookup by name succeeds exactly when one node has
/// the name.
pub proof fn law_unique_lookup_needs_one_match(entity: Entity, q: Seq<char>, nodes: Seq<NamedNode>)
    requires
        !uuid_text(q),
    ensures
        unique_name_lookup(entity, q, nodes) is Ok <==> nodes.filter(name_matches(q)).len() == 1,
{
}

} // verus!
