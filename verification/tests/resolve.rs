use lineark::ids::{all_uuids, is_uuid};
use lineark::resolve::{
    any_me_alias, is_me_alias, milestone_lookup_start, resolve_cycle_by_name_among,
    resolve_issue_among, resolve_label_among, resolve_labels_among, resolve_milestone_among,
    resolve_state_among, resolve_team_among, resolve_team_key_among, resolve_teams_among,
    resolve_unique_name_among, resolve_user_among, viewer_user_id, CycleNode, Entity, IssueNode,
    NamedNode, ResolveError, TeamNode, UserNode,
};

const UUID: &str = "550e8400-e29b-41d4-a716-446655440000";

fn s(x: &str) -> Option<String> {
    Some(x.to_string())
}

fn team(id: &str, key: &str, name: &str) -> TeamNode {
    TeamNode { id: s(id), key: s(key), name: s(name) }
}

fn named(id: &str, name: &str) -> NamedNode {
    NamedNode { id: s(id), name: s(name) }
}

fn teams() -> Vec<TeamNode> {
    vec![team("t1", "ENG", "Engineering"), team("t2", "DES", "Design")]
}

#[test]
fn uuid_layouts_are_recognised() {
    assert!(is_uuid(UUID));
    assert!(is_uuid("550E8400E29B41D4A716446655440000"));
    assert!(is_uuid("{550e8400-e29b-41d4-a716-446655440000}"));
    assert!(is_uuid("URN:uuid:550e8400-e29b-41d4-a716-446655440000"));
    assert!(!is_uuid("ENG-123"));
    assert!(!is_uuid("550e8400-e29b-41d4-a716-44665544000g"));
    assert!(!is_uuid(""));
    assert!(all_uuids(&vec![UUID.to_string()]));
    assert!(!all_uuids(&vec![UUID.to_string(), "Bug".to_string()]));
    assert!(all_uuids(&Vec::new()));
}

#[test]
fn team_resolves_by_key_or_name_ignoring_case() {
    assert_eq!(resolve_team_among("eng", &teams()).ok(), s("t1"));
    assert_eq!(resolve_team_among("design", &teams()).ok(), s("t2"));
    assert_eq!(resolve_team_among(UUID, &teams()).ok(), s(UUID));
}

#[test]
fn team_not_found_lists_teams() {
    let ts = vec![team("t1", "ENG", "Engineering"), TeamNode { id: s("t3"), key: None, name: None }];
    let e = resolve_team_among("ops", &ts).err().unwrap();
    assert_eq!(e.message(), "Team 'ops' not found. Available: ENG (Engineering), ? (?)");
}

#[test]
fn team_without_id_resolves_to_empty() {
    let ts = vec![TeamNode { id: None, key: s("ENG"), name: None }];
    assert_eq!(resolve_team_among("ENG", &ts).ok(), s(""));
}

#[test]
fn several_teams_resolve_in_order_and_stop_at_first_failure() {
    let keys = vec!["ENG".to_string(), UUID.to_string(), "des".to_string()];
    assert_eq!(
        resolve_teams_among(&keys, &teams()).ok(),
        Some(vec!["t1".to_string(), UUID.to_string(), "t2".to_string()])
    );
    let bad = vec!["ENG".to_string(), "nope".to_string(), "gone".to_string()];
    let e = resolve_teams_among(&bad, &teams()).err().unwrap();
    assert_eq!(e.message(), "Team 'nope' not found. Available: ENG (Engineering), DES (Design)");
}

#[test]
fn all_uuid_team_keys_need_no_teams() {
    let keys = vec![UUID.to_string()];
    assert_eq!(resolve_teams_among(&keys, &Vec::new()).ok(), Some(keys.clone()));
}

#[test]
fn team_key_lookup_ignores_names() {
    assert_eq!(resolve_team_key_among("eng", &teams()).ok(), s("t1"));
    let e = resolve_team_key_among("Design", &teams()).err().unwrap();
    assert_eq!(e.message(), "Team 'Design' not found");
}

#[test]
fn labels_resolve_by_name_and_keep_uuids() {
    let labels = vec![named("l1", "Bug"), named("l2", "Frontend"), NamedNode { id: s("l3"), name: None }];
    let items = vec!["bug".to_string(), UUID.to_string(), "FRONTEND".to_string()];
    assert_eq!(
        resolve_labels_among(&items, &labels).ok(),
        Some(vec!["l1".to_string(), UUID.to_string(), "l2".to_string()])
    );
    let e = resolve_label_among("P0", &labels).err().unwrap();
    assert_eq!(e.message(), "Label 'P0' not found. Available: Bug, Frontend");
}

#[test]
fn projects_need_exactly_one_match() {
    let ps = vec![named("p1", "Alpha"), named("p2", "Beta"), named("p3", "beta")];
    assert_eq!(resolve_unique_name_among(Entity::Project, "alpha", &ps).ok(), s("p1"));
    let amb = resolve_unique_name_among(Entity::Project, "BETA", &ps).err().unwrap();
    assert_eq!(amb.message(), "Ambiguous project 'BETA'. Matches: Beta, beta");
    let none = resolve_unique_name_among(Entity::Initiative, "Gamma", &ps).err().unwrap();
    assert_eq!(none.message(), "Initiative 'Gamma' not found. Available: Alpha, Beta, beta");
    assert_eq!(resolve_unique_name_among(Entity::Project, UUID, &ps).ok(), s(UUID));
}

#[test]
fn users_match_name_or_display_name() {
    let us = vec![
        UserNode { id: s("u1"), name: s("Jane Doe"), display_name: s("jane") },
        UserNode { id: s("u2"), name: s("John Roe"), display_name: s("john") },
        UserNode { id: s("u3"), name: s("Jane"), display_name: None },
    ];
    assert_eq!(resolve_user_among("JOHN", &us).ok(), s("u2"));
    assert_eq!(resolve_user_among("jane doe", &us).ok(), s("u1"));
    let amb = resolve_user_among("jane", &us).err().unwrap();
    assert_eq!(amb.message(), "Ambiguous user 'jane'. Matches: Jane Doe (jane), Jane (?)");
    let none = resolve_user_among("bob", &us).err().unwrap();
    assert_eq!(none.message(), "User 'bob' not found");
}

#[test]
fn me_alias_is_case_insensitive() {
    assert!(is_me_alias("me"));
    assert!(is_me_alias("ME"));
    assert!(!is_me_alias("meh"));
    assert!(any_me_alias(&vec!["Jane".to_string(), "Me".to_string()]));
    assert!(!any_me_alias(&vec!["Jane".to_string()]));
    assert_eq!(viewer_user_id(s("v1")).ok(), s("v1"));
    let e = viewer_user_id(None).err().unwrap();
    assert!(matches!(e, ResolveError::NoViewerId));
    assert_eq!(e.message(), "Could not determine authenticated user ID");
}

#[test]
fn issues_match_identifier_exactly() {
    let hits = vec![
        IssueNode { id: s("i1"), identifier: s("ENG-12") },
        IssueNode { id: s("i2"), identifier: s("ENG-123") },
    ];
    assert_eq!(resolve_issue_among("eng-123", &hits).ok(), s("i2"));
    let e = resolve_issue_among("ENG-1", &hits).err().unwrap();
    assert_eq!(e.message(), "Issue 'ENG-1' not found");
    let no_id = vec![IssueNode { id: None, identifier: s("ENG-5") }, IssueNode { id: s("i9"), identifier: s("ENG-5") }];
    assert!(resolve_issue_among("ENG-5", &no_id).is_err());
}

#[test]
fn cycles_match_name_and_list_numbers() {
    let cs = vec![
        CycleNode { id: s("c1"), number: s("3"), name: s("Sprint 3") },
        CycleNode { id: s("c2"), number: None, name: None },
    ];
    assert_eq!(resolve_cycle_by_name_among("sprint 3", &cs).ok(), s("c1"));
    let e = resolve_cycle_by_name_among("Sprint 9", &cs).err().unwrap();
    assert_eq!(e.message(), "Cycle 'Sprint 9' not found. Available: #3 Sprint 3, #? (unnamed)");
}

#[test]
fn states_match_names_and_missing_names_are_empty() {
    let st = vec![NamedNode { id: s("s0"), name: None }, named("s1", "In Progress")];
    assert_eq!(resolve_state_among("in progress", &st).ok(), s("s1"));
    assert_eq!(resolve_state_among("", &st).ok(), s("s0"));
    let e = resolve_state_among("Done", &st).err().unwrap();
    assert_eq!(e.message(), "Status 'Done' not found for this team. Available: In Progress");
}

#[test]
fn milestones_need_a_project_unless_uuid() {
    assert_eq!(milestone_lookup_start(UUID, &None).ok(), Some(s(UUID)));
    let e = milestone_lookup_start("M1", &None).err().unwrap();
    assert_eq!(
        e.message(),
        "Looking up milestones by name requires --project. Use a UUID to reference without --project."
    );
    assert_eq!(milestone_lookup_start("M1", &s("P")).ok(), Some(None));
    let ms = vec![named("m1", "Beta launch")];
    assert_eq!(resolve_milestone_among("beta LAUNCH", "P", &ms).ok(), s("m1"));
    let e2 = resolve_milestone_among("GA", "P", &ms).err().unwrap();
    assert_eq!(e2.message(), "Milestone 'GA' not found in project 'P'. Available: Beta launch");
    let e3 = resolve_milestone_among("GA", "P", &Vec::new()).err().unwrap();
    assert_eq!(e3.message(), "Milestone 'GA' not found in project 'P'");
}

#[test]
fn a_uuid_resolves_to_itself_whatever_the_candidates() {
    let other = vec![named("x", UUID)];
    assert_eq!(resolve_team_among(UUID, &Vec::new()).ok(), s(UUID));
    assert_eq!(resolve_team_key_among(UUID, &teams()).ok(), s(UUID));
    assert_eq!(resolve_label_among(UUID, &other).ok(), s(UUID));
    assert_eq!(resolve_unique_name_among(Entity::Project, UUID, &other).ok(), s(UUID));
    assert_eq!(resolve_unique_name_among(Entity::Initiative, UUID, &Vec::new()).ok(), s(UUID));
    assert_eq!(resolve_user_among(UUID, &Vec::new()).ok(), s(UUID));
    assert_eq!(resolve_issue_among(UUID, &Vec::new()).ok(), s(UUID));
    assert_eq!(resolve_cycle_by_name_among(UUID, &Vec::new()).ok(), s(UUID));
}
