use lineark::labels::{
    label_create_input, label_rows, label_to_row, label_update_input, order_labels,
    sort_by_name_refs, FieldUpdate, LabelParentRef, LabelSummary, LabelTeamRef,
};

fn label(id: &str, name: &str, group: bool, parent: Option<&str>) -> LabelSummary {
    LabelSummary {
        id: Some(id.to_string()),
        name: Some(name.to_string()),
        color: Some("#fff".to_string()),
        is_group: Some(group),
        team: Some(LabelTeamRef { key: Some("ENG".to_string()) }),
        parent: parent.map(|p| LabelParentRef { name: Some(p.to_string()) }),
    }
}

fn names(v: &[&LabelSummary]) -> Vec<String> {
    v.iter().map(|l| l.name.clone().unwrap_or_default()).collect()
}

#[test]
fn groups_come_first_with_sorted_children_then_the_rest_sorted() {
    let labels = vec![
        label("1", "zeta", false, None),
        label("2", "Area", true, None),
        label("3", "ui", false, Some("Area")),
        label("4", "api", false, Some("Area")),
        label("5", "alpha", false, None),
        label("6", "Type", true, None),
        label("7", "bug", false, Some("Type")),
    ];
    let ordered = order_labels(&labels);
    assert_eq!(names(&ordered), vec!["Area", "api", "ui", "Type", "bug", "alpha", "zeta"]);
}

#[test]
fn every_label_is_listed_once_when_ids_differ() {
    let labels = vec![
        label("1", "b", false, Some("missing group")),
        label("2", "G", true, None),
        label("3", "a", false, None),
    ];
    let ordered = order_labels(&labels);
    assert_eq!(ordered.len(), labels.len());
    assert_eq!(names(&ordered), vec!["G", "a", "b"]);
}

#[test]
fn sort_is_stable_and_uses_str_order() {
    let a1 = label("1", "same", false, None);
    let b = label("2", "Big", false, None);
    let a2 = label("3", "same", false, None);
    let s = sort_by_name_refs(vec![&a1, &b, &a2]);
    assert_eq!(s.iter().map(|l| l.id.clone().unwrap()).collect::<Vec<_>>(), vec!["2", "1", "3"]);
}

#[test]
fn label_rows_show_group_team_and_parent() {
    let g = label("2", "Area", true, None);
    let row = label_to_row(&g);
    assert_eq!(row.is_label_group, "yes");
    assert_eq!(row.team, "ENG");
    assert_eq!(row.parent_label, "");
    let c = LabelSummary { id: None, name: None, color: None, is_group: None, team: None, parent: Some(LabelParentRef { name: Some("Area".to_string()) }) };
    let row2 = label_to_row(&c);
    assert_eq!(row2.id, "");
    assert_eq!(row2.is_label_group, "");
    assert_eq!(row2.parent_label, "Area");
    let rows = label_rows(&vec![g, c]);
    assert_eq!(rows.len(), 2);
    assert_eq!(rows[0].name, "Area");
}

#[test]
fn label_update_needs_a_field() {
    let e = label_update_input(None, None, None, None, false, false, false).err().unwrap();
    assert_eq!(e, "No update fields provided. Use --name, --color, --description, --parent-label-group, --clear-parent-label-group, --make-label-group, or --clear-label-group.");
    let u = label_update_input(Some("x".to_string()), None, None, Some("p".to_string()), true, false, true).ok().unwrap();
    assert_eq!(u.name, FieldUpdate::Value("x".to_string()));
    assert_eq!(u.color, FieldUpdate::Undefined);
    assert_eq!(u.parent_id, FieldUpdate::Null);
    assert_eq!(u.is_group, FieldUpdate::Value(false));
    let v = label_update_input(None, None, None, Some("p".to_string()), false, true, false).ok().unwrap();
    assert_eq!(v.parent_id, FieldUpdate::Value("p".to_string()));
    assert_eq!(v.is_group, FieldUpdate::Value(true));
}

#[test]
fn label_create_sets_given_fields() {
    let c = label_create_input("Bug".to_string(), Some("t1".to_string()), None, Some("d".to_string()), None, false);
    assert_eq!(c.name, "Bug");
    assert_eq!(c.team_id, FieldUpdate::Value("t1".to_string()));
    assert_eq!(c.color, FieldUpdate::Undefined);
    assert_eq!(c.description, FieldUpdate::Value("d".to_string()));
    assert_eq!(c.is_group, FieldUpdate::Undefined);
    let g = label_create_input("G".to_string(), None, None, None, None, true);
    assert_eq!(g.is_group, FieldUpdate::Value(true));
}
