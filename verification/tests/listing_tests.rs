use swayws::listing::workspace_table_lines;
use swayws::model::Workspace;

fn ws(id: i64, num: Option<i32>, name: &str) -> Workspace {
    Workspace {
        id,
        num,
        name: name.to_string(),
        output: "eDP-1".to_string(),
        visible: false,
        focused: false,
    }
}

#[test]
fn table_right_aligns_every_column() {
    let lines = workspace_table_lines(&vec![
        ws(7, Some(1), "mail"),
        ws(123, None, "x"),
    ]);
    assert_eq!(lines, vec!["  7,  1, mail".to_string(), "123, -1,    x".to_string()]);
}

#[test]
fn table_of_no_workspaces_is_empty() {
    let lines = workspace_table_lines(&Vec::new());
    assert!(lines.is_empty());
}

#[test]
fn table_shows_missing_numeric_prefix_as_minus_one() {
    let lines = workspace_table_lines(&vec![ws(5, None, "web")]);
    assert_eq!(lines, vec!["5, -1, web".to_string()]);
}
