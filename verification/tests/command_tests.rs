use swayws::command::render_command;
use swayws::model::Workspace;
use swayws::strutil::{str_ends_with, str_starts_with};
use swayws::util::{
    focus_workspace, focus_workspace_by_id, focus_workspace_by_name, focus_workspace_by_num,
    focus_workspace_number, move_workspace_to_output, rename_workspace,
};
use swayws::{Command, SwayWsError};

fn ws(id: i64, name: &str) -> Workspace {
    Workspace {
        id,
        num: None,
        name: name.to_string(),
        output: "eDP-1".to_string(),
        visible: false,
        focused: false,
    }
}

#[test]
fn focus_command_text() {
    assert_eq!(focus_workspace("3"), "workspace 3");
    assert_eq!(focus_workspace_by_name("mail"), "workspace mail");
}

#[test]
fn focus_number_command_text() {
    assert_eq!(focus_workspace_number(7), "workspace number 7");
    assert_eq!(focus_workspace_by_num(-2), "workspace number -2");
}

#[test]
fn move_command_is_the_three_part_compound() {
    assert_eq!(
        move_workspace_to_output("3", "HDMI-1"),
        "workspace 3 output HDMI-1, workspace 3, move workspace to HDMI-1"
    );
}

#[test]
fn rename_command_text() {
    assert_eq!(
        rename_workspace("A", "swayws-swap"),
        "rename workspace A to swayws-swap"
    );
}

#[test]
fn unplug_and_create_command_text() {
    assert_eq!(
        render_command(&Command::Unplug {
            output: "HEADLESS-1".to_string()
        }),
        "output HEADLESS-1 unplug"
    );
    assert_eq!(render_command(&Command::CreateOutput), "create_output");
}

#[test]
fn focus_by_id_resolves_to_current_name() {
    let wss = vec![ws(10, "mail"), ws(11, "web")];
    assert_eq!(
        focus_workspace_by_id(&wss, 11),
        Ok("workspace web".to_string())
    );
    assert_eq!(
        focus_workspace_by_id(&wss, 99),
        Err(SwayWsError::NoWorkspaceWithId { id: 99 })
    );
}

#[test]
fn error_messages_are_the_documented_lines() {
    assert_eq!(
        SwayWsError::SwayIpc.message(),
        "Error while communicating with sway"
    );
    assert_eq!(SwayWsError::Parse.message(), "Cannot parse integer");
    assert_eq!(
        SwayWsError::NoOutputMatched.message(),
        "No output can be matched against the specified parameters"
    );
    assert_eq!(
        SwayWsError::NoWorkspaceWithNum { num: -3 }.message(),
        "No workspace with the numerical -3 prefix could be found"
    );
    assert_eq!(
        SwayWsError::NoWorkspaceWithId { id: 42 }.message(),
        "No workspace with the id 42 could be found"
    );
}

#[test]
fn prefix_and_suffix_scans() {
    assert!(str_starts_with("HEADLESS-1", "HEADLESS-"));
    assert!(!str_starts_with("HEAD", "HEADLESS-"));
    assert!(str_starts_with("abc", ""));
    assert!(str_starts_with("abc", "abc"));
    assert!(str_ends_with("HEADLESS-1A", "A"));
    assert!(str_ends_with("abc", ""));
    assert!(!str_ends_with("abc", "ab"));
    assert!(!str_ends_with("c", "abc"));
}
