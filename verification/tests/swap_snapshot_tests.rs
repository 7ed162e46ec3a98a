use swayws::model::{find_workspace_output, Workspace};
use swayws::snapshot::Snapshot;
use swayws::swap::plan_swap;
use swayws::Command;

fn ws(id: i64, name: &str, output: &str, visible: bool, focused: bool) -> Workspace {
    Workspace {
        id,
        num: None,
        name: name.to_string(),
        output: output.to_string(),
        visible,
        focused,
    }
}

fn rename(from: &str, to: &str) -> Command {
    Command::Rename {
        from: from.to_string(),
        to: to.to_string(),
    }
}

fn mv(workspace: &str, output: &str) -> Command {
    Command::Move {
        workspace: workspace.to_string(),
        output: output.to_string(),
    }
}

#[test]
fn swap_plans_renames_then_pins_both_sides() {
    let wss = vec![
        ws(1, "A", "eDP-1", true, true),
        ws(2, "B", "HDMI-1", true, false),
    ];
    let plan = plan_swap(&wss, &"A".to_string(), &"B".to_string());
    assert_eq!(
        plan,
        vec![
            rename("A", "swayws-swap"),
            rename("B", "A"),
            rename("swayws-swap", "B"),
            mv("A", "eDP-1"),
            mv("B", "HDMI-1"),
        ]
    );
}

#[test]
fn swap_with_one_absent_side_skips_its_forced_move() {
    let wss = vec![ws(1, "A", "eDP-1", true, true)];
    let plan = plan_swap(&wss, &"A".to_string(), &"B".to_string());
    assert_eq!(
        plan,
        vec![
            rename("A", "swayws-swap"),
            rename("B", "A"),
            rename("swayws-swap", "B"),
            mv("A", "eDP-1"),
        ]
    );
}

#[test]
fn swap_twice_plans_the_same_pinning() {
    // The proven self-inverse law speaks of the modeled compositor; at the
    // command level, a second swap against the state the first one left
    // pins the same outputs again, since renaming does not move content
    // off its output.
    let before = vec![
        ws(1, "A", "eDP-1", true, true),
        ws(2, "B", "HDMI-1", true, false),
    ];
    let after_first = vec![
        ws(2, "A", "eDP-1", true, true),
        ws(1, "B", "HDMI-1", true, false),
    ];
    let first = plan_swap(&before, &"A".to_string(), &"B".to_string());
    let second = plan_swap(&after_first, &"A".to_string(), &"B".to_string());
    assert_eq!(first, second);
}

#[test]
fn find_workspace_output_takes_first_match() {
    let wss = vec![ws(1, "A", "eDP-1", true, true), ws(2, "A", "HDMI-1", false, false)];
    assert_eq!(
        find_workspace_output(&wss, &"A".to_string()),
        Some("eDP-1".to_string())
    );
    assert_eq!(find_workspace_output(&wss, &"Z".to_string()), None);
}

#[test]
fn capture_keeps_visible_order_and_focused_name() {
    let wss = vec![
        ws(1, "1", "eDP-1", true, false),
        ws(2, "2", "eDP-1", false, false),
        ws(3, "3", "HDMI-1", true, true),
    ];
    let snap = Snapshot::capture(&wss);
    assert_eq!(snap.visible_names, vec!["1".to_string(), "3".to_string()]);
    assert_eq!(snap.focused_name, Some("3".to_string()));
}

#[test]
fn capture_without_focused_entry_yields_none() {
    let wss = vec![ws(1, "1", "eDP-1", true, false)];
    let snap = Snapshot::capture(&wss);
    assert_eq!(snap.focused_name, None);
}

#[test]
fn adjust_focus_for_swap_follows_the_left_name() {
    let mut snap = Snapshot {
        visible_names: vec!["A".to_string()],
        focused_name: Some("A".to_string()),
    };
    snap.adjust_focus_for_swap(&"A".to_string(), &"B".to_string());
    assert_eq!(snap.focused_name, Some("B".to_string()));
    assert_eq!(snap.visible_names, vec!["A".to_string()]);
}

#[test]
fn adjust_focus_for_swap_follows_the_right_name() {
    let mut snap = Snapshot {
        visible_names: vec![],
        focused_name: Some("B".to_string()),
    };
    snap.adjust_focus_for_swap(&"A".to_string(), &"B".to_string());
    assert_eq!(snap.focused_name, Some("A".to_string()));
}

#[test]
fn adjust_focus_for_swap_leaves_other_names_alone() {
    let mut snap = Snapshot {
        visible_names: vec![],
        focused_name: Some("C".to_string()),
    };
    snap.adjust_focus_for_swap(&"A".to_string(), &"B".to_string());
    assert_eq!(snap.focused_name, Some("C".to_string()));
}

#[test]
fn restore_plan_focuses_visible_names_then_focused_name() {
    let snap = Snapshot {
        visible_names: vec!["1".to_string(), "3".to_string()],
        focused_name: Some("3".to_string()),
    };
    let plan = snap.restore_plan();
    assert_eq!(
        plan,
        vec![
            Command::Focus {
                name: "1".to_string()
            },
            Command::Focus {
                name: "3".to_string()
            },
            Command::Focus {
                name: "3".to_string()
            },
        ]
    );
}

#[test]
fn restore_plan_without_focused_name_only_visits() {
    let snap = Snapshot {
        visible_names: vec!["1".to_string()],
        focused_name: None,
    };
    let plan = snap.restore_plan();
    assert_eq!(
        plan,
        vec![Command::Focus {
            name: "1".to_string()
        }]
    );
}

#[test]
fn swap_with_both_sides_absent_only_renames() {
    let plan = plan_swap(&Vec::new(), &"A".to_string(), &"B".to_string());
    assert_eq!(
        plan,
        vec![
            rename("A", "swayws-swap"),
            rename("B", "A"),
            rename("swayws-swap", "B"),
        ]
    );
}
