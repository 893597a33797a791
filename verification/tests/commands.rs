use lineark::comments::{check_comments_request, CommentsAction, CommentsCmd};
use lineark::cycles::{
    around_active_filter, cycle_read_plan, cycle_row, cycle_status_label, CycleListItem,
    CycleReadPlan,
};
use lineark::dates::{parse_date_flag, DateFlag};
use lineark::documents::{check_documents_request, doc_search_row, document_row, list_has_filter, DocSearchSummary, DocumentSummary, DocumentsAction, DocumentsCmd};
use lineark::initiatives::{
    check_initiatives_request, initiative_row, parse_initiative_status, InitiativeStatus,
    InitiativeSummary, InitiativesAction, InitiativesCmd,
};
use lineark::milestones::{check_milestones_request, milestone_row, MilestoneSummary, MilestonesAction, MilestonesCmd};
use lineark::notifications::{listed_notifications, notification_row, NotificationSummary};
use lineark::output::{resolve_format, Format};
use lineark::projects::{check_projects_request, cleared_fields, parse_priority, project_row, LeadRef, ProjectListRef, ProjectsAction, ProjectsCmd};
use lineark::relations::{plan_relation, RelationKind};
use lineark::resolve::TeamNode;
use lineark::teams::{check_is_member, check_teams_request, find_membership, team_row, MembershipNode, TeamsAction, TeamsCmd};
use lineark::users::{user_rows, UserListItem};
use lineark::viewer::OrgRef;

fn s(x: &str) -> Option<String> {
    Some(x.to_string())
}

fn cycle(id: &str, number: Option<i64>, active: bool) -> CycleListItem {
    CycleListItem {
        id: s(id),
        number,
        name: None,
        starts_at: None,
        ends_at: None,
        is_active: Some(active),
        is_next: None,
        is_previous: None,
        is_future: None,
        is_past: None,
    }
}

#[test]
fn cycle_status_prefers_active_then_next_previous_future_past() {
    let mut c = cycle("c", Some(1), false);
    assert_eq!(cycle_status_label(&c), "");
    c.is_past = Some(true);
    assert_eq!(cycle_status_label(&c), "past");
    c.is_future = Some(true);
    assert_eq!(cycle_status_label(&c), "future");
    c.is_previous = Some(true);
    assert_eq!(cycle_status_label(&c), "previous");
    c.is_next = Some(true);
    assert_eq!(cycle_status_label(&c), "next");
    c.is_active = Some(true);
    assert_eq!(cycle_status_label(&c), "active");
}

#[test]
fn cycle_rows_show_numbers() {
    let r = cycle_row(&cycle("c1", Some(-42), true));
    assert_eq!(r.number, "-42");
    assert_eq!(r.active, "active");
    assert_eq!(cycle_row(&cycle("c2", None, false)).number, "");
    assert_eq!(cycle_row(&cycle("c3", Some(1234567), false)).number, "1234567");
}

#[test]
fn around_active_keeps_neighbours_by_number() {
    let cs = vec![
        cycle("a", Some(1), false),
        cycle("b", Some(5), false),
        cycle("c", Some(3), true),
        cycle("d", None, false),
        cycle("e", Some(4), false),
        cycle("f", Some(2), false),
    ];
    let w = around_active_filter(&cs, 1).unwrap();
    let ids: Vec<String> = w.iter().map(|c| c.id.clone().unwrap()).collect();
    assert_eq!(ids, vec!["c", "e", "f"]);
    assert_eq!(around_active_filter(&cs, 0).unwrap().len(), 1);
    let none = vec![cycle("a", Some(1), false)];
    assert!(around_active_filter(&none, 2).is_none());
    let no_number = vec![cycle("a", None, true)];
    assert!(around_active_filter(&no_number, 2).is_none());
}

#[test]
fn cycle_read_plan_needs_team_for_names() {
    let uuid = "550e8400-e29b-41d4-a716-446655440000";
    assert_eq!(cycle_read_plan(uuid, &None).ok(), Some(CycleReadPlan::ById));
    assert_eq!(
        cycle_read_plan("3", &None).err().unwrap(),
        "Looking up cycles by name/number requires --team. Use a UUID to read without --team."
    );
    assert_eq!(cycle_read_plan("42", &s("ENG")).ok(), Some(CycleReadPlan::ByNumber(42)));
    assert_eq!(cycle_read_plan("Sprint 4", &s("ENG")).ok(), Some(CycleReadPlan::ByName));
    assert_eq!(cycle_read_plan("NaN", &s("ENG")).ok(), Some(CycleReadPlan::ByName));
}

#[test]
fn numbers_accept_signs_and_digits_only() {
    assert_eq!(parse_priority("+3"), Ok(3));
    assert_eq!(parse_priority("-0"), Ok(0));
    assert!(parse_priority(" 1").is_err());
    assert!(parse_priority("-").is_err());
    assert!(parse_priority("99999999999999999999").is_err());
    assert_eq!(cycle_read_plan("-12", &s("ENG")).ok(), Some(CycleReadPlan::ByNumber(-12)));
    assert_eq!(cycle_read_plan("99999999999999999999", &s("ENG")).ok(), Some(CycleReadPlan::ByName));
}

#[test]
fn update_requests_must_change_something() {
    let c = CommentsCmd { action: CommentsAction::Update { id: "x".into(), body: None } };
    assert_eq!(check_comments_request(&c).err().unwrap(), "No update fields provided. Use --body to set the new comment body.");
    let c2 = CommentsCmd { action: CommentsAction::Update { id: "x".into(), body: s("b") } };
    assert!(check_comments_request(&c2).is_ok());
    let d = DocumentsCmd { action: DocumentsAction::Update { id: "doc-uuid".into(), title: None, content: None } };
    assert_eq!(check_documents_request(&d).err().unwrap(), "No update fields provided. Use --title or --content to specify changes.");
    let m = MilestonesCmd { action: MilestonesAction::Update { id: "some-uuid".into(), project: None, name: None, target_date: None, description: None } };
    assert_eq!(check_milestones_request(&m).err().unwrap(), "No update fields provided. Use --name, --target-date, or --description.");
    let i = InitiativesCmd { action: InitiativesAction::Update { id: "i".into(), name: None, description: None, owner: None, status: None, target_date: None } };
    assert_eq!(check_initiatives_request(&i).err().unwrap(), "No update fields provided. Use --name, --description, --owner, --status, or --target-date.");
    let t = TeamsCmd { action: TeamsAction::Update { id: "t".into(), name: None, key: None, description: None, icon: None, color: None, timezone: None, private: None, cycles_enabled: None, triage_enabled: None } };
    assert!(check_teams_request(&t).err().unwrap().starts_with("No update fields provided. Use --name, --key,"));
    let t2 = TeamsCmd { action: TeamsAction::Update { id: "t".into(), name: None, key: None, description: None, icon: None, color: None, timezone: None, private: Some(false), cycles_enabled: None, triage_enabled: None } };
    assert!(check_teams_request(&t2).is_ok());
    let p = ProjectsCmd { action: ProjectsAction::Update { id: "p".into(), name: None, description: None, content: None, lead: None, clear_lead: false, members: None, team: None, start_date: None, clear_start_date: false, target_date: None, clear_target_date: false, priority: None, status: None, icon: None, color: None, labels: None } };
    assert!(check_projects_request(&p).err().unwrap().ends_with("--icon, --color, or --labels to specify changes."));
    let p2 = ProjectsCmd { action: ProjectsAction::Update { id: "p".into(), name: None, description: None, content: None, lead: None, clear_lead: true, members: None, team: None, start_date: None, clear_start_date: false, target_date: None, clear_target_date: false, priority: None, status: None, icon: None, color: None, labels: None } };
    assert!(check_projects_request(&p2).is_ok());
    let other = ProjectsCmd { action: ProjectsAction::List { led_by_me: true } };
    assert!(check_projects_request(&other).is_ok());
}

#[test]
fn documents_list_filter_and_rows() {
    assert!(!list_has_filter(&None, &None));
    assert!(list_has_filter(&s("P"), &None));
    let r = document_row(&DocumentSummary { id: s("d"), title: None, url: s("u"), created_at: s("c"), updated_at: None });
    assert_eq!((r.id.as_str(), r.title.as_str(), r.url.as_str(), r.updated_at.as_str()), ("d", "", "u", ""));
    let h = doc_search_row(&DocSearchSummary { id: s("d"), title: s("T"), slug_id: s("sl"), url: None, updated_at: s("x") });
    assert_eq!((h.slug_id.as_str(), h.url.as_str(), h.updated_at.as_str()), ("sl", "", "x"));
}

#[test]
fn clearing_project_fields_sends_nulls() {
    assert_eq!(cleared_fields(true, false, true), vec!["leadId".to_string(), "targetDate".to_string()]);
    assert!(cleared_fields(false, false, false).is_empty());
    assert_eq!(cleared_fields(false, true, false), vec!["startDate".to_string()]);
}

#[test]
fn priorities_by_number_or_name() {
    assert_eq!(parse_priority("2").ok(), Some(2));
    assert_eq!(parse_priority("Urgent").ok(), Some(1));
    assert_eq!(parse_priority("low").ok(), Some(4));
    assert_eq!(parse_priority("none").ok(), Some(0));
    assert_eq!(parse_priority("5").err().unwrap(), "Invalid priority '5'. Use 0-4 or none, urgent, high, medium, low.");
}

#[test]
fn project_rows_prefer_display_name() {
    let p = ProjectListRef { id: s("p"), name: s("P"), slug_id: s("sl"), lead: Some(LeadRef { id: None, name: s("Jane Doe"), display_name: s("jane") }) };
    assert_eq!(project_row(&p).lead, "jane");
    let q = ProjectListRef { id: None, name: None, slug_id: None, lead: Some(LeadRef { id: None, name: s("Jane Doe"), display_name: None }) };
    assert_eq!(project_row(&q).lead, "Jane Doe");
    let r = ProjectListRef { id: None, name: None, slug_id: None, lead: None };
    assert_eq!(project_row(&r).lead, "");
}

#[test]
fn initiative_status_parses_any_case() {
    assert_eq!(parse_initiative_status("ACTIVE").ok(), Some(InitiativeStatus::Active));
    assert_eq!(parse_initiative_status("planned").ok(), Some(InitiativeStatus::Planned));
    assert_eq!(parse_initiative_status("Completed").ok(), Some(InitiativeStatus::Completed));
    assert_eq!(
        parse_initiative_status("done").err().unwrap(),
        "Invalid initiative status 'done'. Valid values: Planned, Active, Completed"
    );
    let row = initiative_row(&InitiativeSummary { id: s("i"), name: s("N"), status: s("Active"), target_date: None });
    assert_eq!((row.status.as_str(), row.target_date.as_str()), ("Active", ""));
}

#[test]
fn milestone_rows_lowercase_status() {
    let r = milestone_row(&MilestoneSummary { id: s("m"), name: s("M"), target_date: s("2025-01-31"), description: None, status: s("Next") });
    assert_eq!(r.status, "next");
    assert_eq!(r.target_date, "2025-01-31");
}

#[test]
fn date_flags_parse_or_explain() {
    assert_eq!(parse_date_flag(DateFlag::TargetDate, &None).ok(), Some(None));
    let d = parse_date_flag(DateFlag::StartDate, &s("2025-03-09")).ok().unwrap().unwrap();
    assert_eq!((d.year, d.month, d.day), (2025, 3, 9));
    let e = parse_date_flag(DateFlag::MilestoneDate, &s("2025-13-01")).err().unwrap();
    assert!(e.starts_with("Invalid date format (expected YYYY-MM-DD): "));
    let e2 = parse_date_flag(DateFlag::TargetDate, &s("soon")).err().unwrap();
    assert!(e2.starts_with("Invalid target-date (expected YYYY-MM-DD): "));
    assert!(e2.len() > "Invalid target-date (expected YYYY-MM-DD): ".len());
}

#[test]
fn unread_notifications_only_when_asked() {
    let ns = vec![
        NotificationSummary { id: s("a"), kind: s("issueAssigned"), title: s("t"), read_at: s("2024"), created_at: s("c"), url: None },
        NotificationSummary { id: s("b"), kind: None, title: None, read_at: None, created_at: None, url: None },
    ];
    assert_eq!(listed_notifications(&ns, false).len(), 2);
    let unread = listed_notifications(&ns, true);
    assert_eq!(unread.len(), 1);
    assert_eq!(unread[0].id, s("b"));
    assert_eq!(notification_row(&ns[0]).read, "yes");
    assert_eq!(notification_row(&ns[1]).read, "no");
    assert_eq!(notification_row(&ns[0]).kind, "issueAssigned");
}

#[test]
fn relation_flags_pick_kind_and_direction() {
    let a = "ENG-1".to_string();
    let p = plan_relation(&a, &s("ENG-2"), &None, &None, &None, &None).ok().unwrap();
    assert_eq!((p.kind, p.source.as_str(), p.target.as_str()), (RelationKind::Blocks, "ENG-1", "ENG-2"));
    let q = plan_relation(&a, &None, &s("ENG-2"), &None, &None, &None).ok().unwrap();
    assert_eq!((q.kind, q.source.as_str(), q.target.as_str()), (RelationKind::Blocks, "ENG-2", "ENG-1"));
    let r = plan_relation(&a, &None, &None, &None, &None, &s("ENG-3")).ok().unwrap();
    assert_eq!(r.kind, RelationKind::Similar);
    assert_eq!(
        plan_relation(&a, &None, &None, &None, &None, &None).err().unwrap(),
        "Exactly one relation flag is required: --blocks, --blocked-by, --related, --duplicate, or --similar."
    );
}

#[test]
fn teams_rows_and_membership() {
    let r = team_row(&TeamNode { id: s("t"), key: None, name: s("Eng") });
    assert_eq!((r.id.as_str(), r.key.as_str(), r.name.as_str()), ("t", "", "Eng"));
    assert!(check_is_member("u1", &vec![None, s("u1")]).is_ok());
    assert_eq!(check_is_member("u2", &vec![s("u1")]).err().unwrap(), "User is not a member of this team");
    let ms = vec![MembershipNode { id: s("m1"), user_id: s("u0") }, MembershipNode { id: s("m2"), user_id: s("u1") }];
    assert_eq!(find_membership("u1", &ms).ok(), s("m2"));
    assert_eq!(find_membership("u9", &ms).err().unwrap(), "Could not find team membership for this user");
}

#[test]
fn users_filter_active() {
    let us = vec![
        UserListItem { id: s("1"), name: s("A"), display_name: s("a"), email: s("a@x"), active: Some(true) },
        UserListItem { id: s("2"), name: s("B"), display_name: None, email: None, active: None },
    ];
    assert_eq!(user_rows(&us, false).len(), 2);
    let active = user_rows(&us, true);
    assert_eq!(active.len(), 1);
    assert_eq!(active[0].email, "a@x");
    assert!(!user_rows(&us, false)[1].active);
}

#[test]
fn format_follows_choice_then_terminal() {
    assert_eq!(resolve_format(Some(Format::Json), true), Format::Json);
    assert_eq!(resolve_format(None, true), Format::Human);
    assert_eq!(resolve_format(None, false), Format::Json);
}

#[test]
fn org_shows_its_name() {
    assert_eq!(OrgRef { name: "Acme".to_string() }.display_text(), "Acme");
}
