//! The `relations` command: which relation a request creates, and between which
//! issues.

use vstd::prelude::*;

verus! {

/// The `relations` command.
pub struct RelationsCmd {
    pub action: RelationsAction,
}

/// What the `relations` command does.
pub enum RelationsAction {
    /// Relate `issue` to another issue; exactly one flag names the other issue.
    Create {
        issue: String,
        blocks: Option<String>,
        blocked_by: Option<String>,
        related: Option<String>,
        duplicate: Option<String>,
        similar: Option<String>,
    },
    /// Delete a relation.
    Delete { id: String },
}

/// The kind of a relation between two issues.
#[derive(PartialEq, Eq, Structural, Clone, Copy, Debug)]
pub enum RelationKind {
    Blocks,
    Related,
    Duplicate,
    Similar,
}

/// A relation to create: `source` relates to `target` by `kind`.
pub struct RelationPlan {
    pub kind: RelationKind,
    pub source: String,
    pub target: String,
}

/// The relation a create request makes: the first flag given (in the order
/// blocks, blocked-by, related, duplicate, similar) decides; "A is blocked by B" is
/// created as "B blocks A". Without any flag the request is refused.
pub open spec fn relation_outcome(
    issue: Seq<char>,
    blocks: Option<String>,
    blocked_by: Option<String>,
    related: Option<String>,
    duplicate: Option<String>,
    similar: Option<String>,
) -> Result<(RelationKind, Seq<char>, Seq<char>), Seq<char>> {
    if let Some(t) = blocks {
        Ok((RelationKind::Blocks, issue, t@))
    } else if let Some(b) = blocked_by {
        Ok((RelationKind::Blocks, b@, issue))
    } else if let Some(t) = related {
        Ok((RelationKind::Related, issue, t@))
    } else if let Some(t) = duplicate {
        Ok((RelationKind::Duplicate, issue, t@))
    } else if let Some(t) = similar {
        Ok((RelationKind::Similar, issue, t@))
    } else {
        Err(
            "Exactly one relation flag is required: --blocks, --blocked-by, --related, --duplicate, or --similar."@,
        )
    }
}

/// The relation a create request makes (see `relation_outcome`).
pub fn plan_relation(
    issue: &String,
    blocks: &Option<String>,
    blocked_by: &Option<String>,
    related: &Option<String>,
    duplicate: &Option<String>,
    similar: &Option<String>,
) -> (r: Result<RelationPlan, String>)
    ensures
        blocked_by is None && r is Ok ==> r->Ok_0.source@ == issue@,
        match r {
            Ok(p) => relation_outcome(issue@, *blocks, *blocked_by, *related, *duplicate, *similar)
                == Ok::<(RelationKind, Seq<char>, Seq<char>), Seq<char>>((p.kind, p.source@, p.target@)),
            Err(e) => relation_outcome(issue@, *blocks, *blocked_by, *related, *duplicate, *similar)
                == Err::<(RelationKind, Seq<char>, Seq<char>), Seq<char>>(e@),
        },
{
    if let Some(t) = blocks {
        Ok(RelationPlan { kind: RelationKind::Blocks, source: issue.clone(), target: t.clone() })
    } else if let Some(b) = blocked_by {
        Ok(RelationPlan { kind: RelationKind::Blocks, source: b.clone(), target: issue.clone() })
    } else if let Some(t) = related {
        Ok(RelationPlan { kind: RelationKind::Related, source: issue.clone(), target: t.clone() })
    } else if let Some(t) = duplicate {
        Ok(RelationPlan { kind: RelationKind::Duplicate, source: issue.clone(), target: t.clone() })
    } else if let Some(t) = similar {
        Ok(RelationPlan { kind: RelationKind::Similar, source: issue.clone(), target: t.clone() })
    } else {
        Err(
            String::from_str(
                "Exactly one relation flag is required: --blocks, --blocked-by, --related, --duplicate, or --similar.",
            ),
        )
    }
}


/// Law: the issue named first is the relation's source and the flag's issue its
/// target, for every flag but `--blocked-by`, which alone reverses the direction.
pub proof fn law_named_issue_is_source(issue: Seq<char>, t: String)
    ensures
        relation_outcome(issue, Some(t), None, None, None, None)
            == Ok::<(RelationKind, Seq<char>, Seq<char>), Seq<char>>((RelationKind::Blocks, issue, t@)),
        relation_outcome(issue, None, Some(t), None, None, None)
            == Ok::<(RelationKind, Seq<char>, Seq<char>), Seq<char>>((RelationKind::Blocks, t@, issue)),
        relation_outcome(issue, None, None, Some(t), None, None)
            == Ok::<(RelationKind, Seq<char>, Seq<char>), Seq<char>>((RelationKind::Related, issue, t@)),
        relation_outcome(issue, None, None, None, Some(t), None)
            == Ok::<(RelationKind, Seq<char>, Seq<char>), Seq<char>>((RelationKind::Duplicate, issue, t@)),
        relation_outcome(issue, None, None, None, None, Some(t))
            == Ok::<(RelationKind, Seq<char>, Seq<char>), Seq<char>>((RelationKind::Similar, issue, t@)),
{
}

/// Law: without `--blocked-by`, whatever flags are given, a relation that is made
/// starts at the issue named first.
pub proof fn law_source_is_issue_without_blocked_by(
    issue: Seq<char>,
    blocks: Option<String>,
    related: Option<String>,
    duplicate: Option<String>,
    similar: Option<String>,
)
    ensures
        relation_outcome(issue, blocks, None, related, duplicate, similar) matches Ok((_, s, _))
            ==> s == issue,
{
}

/// Law: "A is blocked by B" creates the same relation as "B blocks A".
pub proof fn law_blocked_by_reverses_blocks(a: Seq<char>, b: String, a_text: String)
    requires
        a_text@ == a,
    ensures
        relation_outcome(a, None, Some(b), None, None, None) == relation_outcome(
            b@,
            Some(a_text),
            None,
            None,
            None,
            None,
        ),
{
}

} // verus!
