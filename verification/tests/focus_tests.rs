use swayws::focus::plan_focus;
use swayws::model::Workspace;
use swayws::{Focus, FocusBy, SwayWsError};

fn focus_args(name: bool, num: bool, id: bool, smart: bool, workspace: &str) -> Focus {
    Focus {
        name,
        num,
        id,
        smart,
        workspace: workspace.to_string(),
    }
}

fn ws(id: i64, name: &str) -> Workspace {
    Workspace {
        id,
        num: None,
        name: name.to_string(),
        output: "eDP-1".to_string(),
        visible: false,
        focused: false,
    }
}

#[test]
fn name_flag_wins() {
    let r = FocusBy::try_from(focus_args(true, false, false, false, "7"));
    assert_eq!(r, Ok(FocusBy::Name("7".to_string())));
}

#[test]
fn num_flag_parses_the_argument() {
    let r = FocusBy::try_from(focus_args(false, true, false, false, "7"));
    assert_eq!(r, Ok(FocusBy::Num(7)));
}

#[test]
fn num_flag_rejects_a_name() {
    let r = FocusBy::try_from(focus_args(false, true, false, false, "mail"));
    assert_eq!(r, Err(SwayWsError::Parse));
}

#[test]
fn id_flag_parses_a_wide_integer() {
    let r = FocusBy::try_from(focus_args(false, false, true, false, "94489280523"));
    assert_eq!(r, Ok(FocusBy::Id(94489280523)));
}

#[test]
fn id_flag_rejects_a_name() {
    let r = FocusBy::try_from(focus_args(false, false, true, false, "mail"));
    assert_eq!(r, Err(SwayWsError::Parse));
}

#[test]
fn smart_prefers_the_number() {
    let r = FocusBy::try_from(focus_args(false, false, false, true, "7"));
    assert_eq!(r, Ok(FocusBy::Num(7)));
}

#[test]
fn smart_falls_back_to_the_name() {
    let r = FocusBy::try_from(focus_args(false, false, false, true, "mail"));
    assert_eq!(r, Ok(FocusBy::Name("mail".to_string())));
}

#[test]
fn no_flag_defaults_to_the_name() {
    let r = FocusBy::try_from(focus_args(false, false, false, false, "7"));
    assert_eq!(r, Ok(FocusBy::Name("7".to_string())));
}

#[test]
fn plan_focus_by_name_and_number() {
    let wss = Vec::new();
    assert_eq!(
        plan_focus(&FocusBy::Name("mail".to_string()), &wss),
        Ok("workspace mail".to_string())
    );
    assert_eq!(
        plan_focus(&FocusBy::Num(3), &wss),
        Ok("workspace number 3".to_string())
    );
}

#[test]
fn plan_focus_by_id_needs_a_live_workspace() {
    let wss = vec![ws(5, "mail")];
    assert_eq!(
        plan_focus(&FocusBy::Id(5), &wss),
        Ok("workspace mail".to_string())
    );
    assert_eq!(
        plan_focus(&FocusBy::Id(6), &wss),
        Err(SwayWsError::NoWorkspaceWithId { id: 6 })
    );
}
