use lineark::output::{human_lines, HumanLine, JsonValue};

fn render(lines: Vec<HumanLine>) -> Vec<String> {
    lines
        .into_iter()
        .map(|l| match l {
            HumanLine::Heading { pad, key } => format!("{pad}{key}:"),
            HumanLine::Field { pad, key, value } => format!("{pad}{key}: {value}"),
            HumanLine::Separator { pad } => format!("{pad}  ---"),
            HumanLine::Text { pad, text } => format!("{pad}{text}"),
        })
        .collect()
}

fn s(x: &str) -> String {
    x.to_string()
}

#[test]
fn object_fields_nested_objects_and_lists() {
    let v = JsonValue::Object(vec![
        (s("id"), JsonValue::Str(s("abc"))),
        (s("gone"), JsonValue::Null),
        (s("priority"), JsonValue::Number(s("2"))),
        (s("private"), JsonValue::Bool(false)),
        (s("team"), JsonValue::Object(vec![(s("key"), JsonValue::Str(s("ENG")))])),
        (
            s("labels"),
            JsonValue::Array(
                vec![
                    JsonValue::Object(vec![(s("name"), JsonValue::Str(s("Bug")))]),
                    JsonValue::Str(s("plain")),
                ],
                s("[{\"name\":\"Bug\"},\"plain\"]"),
            ),
        ),
    ]);
    assert_eq!(
        render(human_lines(&v, "")),
        vec![
            "id: abc",
            "priority: 2",
            "private: false",
            "team:",
            "  key: ENG",
            "labels:",
            "  name: Bug",
            "  ---",
            "  plain",
            "  ---",
        ]
    );
}

#[test]
fn values_outside_objects_stand_on_one_line() {
    assert_eq!(render(human_lines(&JsonValue::Str(s("hello")), "")), vec!["hello"]);
    assert_eq!(render(human_lines(&JsonValue::Null, "    ")), vec!["    null"]);
    assert_eq!(render(human_lines(&JsonValue::Bool(true), "")), vec!["true"]);
    let list = JsonValue::Array(vec![JsonValue::Number(s("1")), JsonValue::Number(s("2"))], s("[1,2]"));
    assert_eq!(render(human_lines(&list, "")), vec!["[1,2]"]);
    assert!(human_lines(&JsonValue::Object(vec![]), "").is_empty());
}

#[test]
fn list_items_that_are_lists_show_compact_json() {
    let inner = JsonValue::Array(vec![JsonValue::Number(s("1"))], s("[1]"));
    let v = JsonValue::Object(vec![(s("m"), JsonValue::Array(vec![inner], s("[[1]]")))]);
    assert_eq!(render(human_lines(&v, "")), vec!["m:", "  [1]", "  ---"]);
}
