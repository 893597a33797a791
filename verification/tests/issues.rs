use lineark::issues::{
    check_success, filter_done, issue_read_route, issue_row, label_change, pick_exact_identifier,
    IssueListItem, IssueReadRoute, LabelMode, NestedState, NestedTeam, NestedUser,
};

fn s(x: &str) -> Option<String> {
    Some(x.to_string())
}

fn issue(id: &str, state: Option<&str>) -> IssueListItem {
    IssueListItem {
        identifier: s(id),
        title: s("t"),
        priority_label: s("High"),
        assignee: Some(NestedUser { id: None, name: s("Jane") }),
        state: state.map(|n| NestedState { id: None, name: s(n) }),
        team: Some(NestedTeam { id: None, key: s("ENG"), name: None }),
    }
}

#[test]
fn finished_issues_are_hidden_unless_asked() {
    let items = vec![
        issue("A-1", Some("Todo")),
        issue("A-2", Some("done")),
        issue("A-3", Some("CANCELLED")),
        issue("A-4", None),
        issue("A-5", Some("Duplicate")),
        issue("A-6", Some("Canceled")),
    ];
    let shown = filter_done(&items, false);
    let ids: Vec<String> = shown.iter().map(|i| i.identifier.clone().unwrap()).collect();
    assert_eq!(ids, vec!["A-1", "A-4"]);
    assert_eq!(filter_done(&items, true).len(), 6);
}

#[test]
fn issue_rows_flatten_nested_fields() {
    let r = issue_row(&issue("A-1", Some("Todo")));
    assert_eq!((r.status.as_str(), r.assignee.as_str(), r.team.as_str(), r.priority.as_str()), ("Todo", "Jane", "ENG", "High"));
    let bare = IssueListItem { identifier: None, title: None, priority_label: None, assignee: None, state: None, team: None };
    let r2 = issue_row(&bare);
    assert_eq!((r2.identifier.as_str(), r2.status.as_str(), r2.team.as_str()), ("", "", ""));
}

#[test]
fn label_changes_follow_the_mode() {
    let ids = Some(vec!["l1".to_string()]);
    let c = label_change(true, ids.clone(), LabelMode::Adding);
    assert_eq!(c.label_ids, Some(vec![]));
    assert!(c.added_label_ids.is_none() && c.removed_label_ids.is_none());
    let r = label_change(false, ids.clone(), LabelMode::Replacing);
    assert_eq!(r.label_ids, ids);
    let a = label_change(false, ids.clone(), LabelMode::Adding);
    assert_eq!(a.added_label_ids, ids);
    assert!(a.label_ids.is_none());
    let d = label_change(false, ids.clone(), LabelMode::Removing);
    assert_eq!(d.removed_label_ids, ids);
    let n = label_change(false, None, LabelMode::Removing);
    assert!(n.label_ids.is_none() && n.added_label_ids.is_none() && n.removed_label_ids.is_none());
}

#[test]
fn read_route_searches_identifiers_with_hyphens() {
    assert_eq!(issue_read_route("ENG-123"), IssueReadRoute::BySearch);
    assert_eq!(issue_read_route("550e8400-e29b-41d4-a716-446655440000"), IssueReadRoute::ById);
    assert_eq!(issue_read_route("abc"), IssueReadRoute::ById);
    let hits = vec![s("ENG-1234"), None, s("eng-123")];
    assert_eq!(pick_exact_identifier("ENG-123", &hits), Some(2));
    assert_eq!(pick_exact_identifier("ENG-9", &hits), None);
}

#[test]
fn mutations_must_report_success() {
    assert!(check_success(Some(true), "{}").is_ok());
    assert_eq!(check_success(Some(false), "{\"success\": false}").err().unwrap(), "Mutation failed: {\"success\": false}");
    assert!(check_success(None, "null").is_err());
}
