use swayws::model::Output;
use swayws::moves::{plan_move, plan_range};
use swayws::range::RangeSpec;
use swayws::util::{collect_outcomes, get_second_output, is_not_in_list};
use swayws::{Command, SwayWsError};

fn outs(names: &[&str]) -> Vec<Output> {
    names
        .iter()
        .map(|n| Output {
            name: n.to_string(),
        })
        .collect()
}

fn strings(names: &[&str]) -> Vec<String> {
    names.iter().map(|n| n.to_string()).collect()
}

#[test]
fn select_skips_excluded_output() {
    let r = get_second_output(&outs(&["eDP-1", "HDMI-1"]), &strings(&["eDP-1"])).unwrap();
    assert_eq!(r.name, "HDMI-1");
}

#[test]
fn select_fails_when_everything_is_excluded() {
    let r = get_second_output(&outs(&["eDP-1", "HDMI-1"]), &strings(&["eDP-1", "HDMI-1"]));
    assert_eq!(r, Err(SwayWsError::NoOutputMatched));
}

#[test]
fn select_fails_with_a_single_output_even_unexcluded() {
    let r = get_second_output(&outs(&["eDP-1"]), &strings(&[]));
    assert_eq!(r, Err(SwayWsError::NoOutputMatched));
}

#[test]
fn select_fails_with_no_outputs() {
    let r = get_second_output(&outs(&[]), &strings(&[]));
    assert_eq!(r, Err(SwayWsError::NoOutputMatched));
}

#[test]
fn select_takes_first_in_compositor_order() {
    let r = get_second_output(&outs(&["A", "B", "C"]), &strings(&["A"])).unwrap();
    assert_eq!(r.name, "B");
}

#[test]
fn is_not_in_list_misses_and_hits() {
    let list = strings(&["a", "b"]);
    assert!(is_not_in_list(&"c".to_string(), &list));
    assert!(!is_not_in_list(&"b".to_string(), &list));
}

#[test]
fn plan_move_without_away_targets_named_output() {
    let r = plan_move(
        &outs(&["eDP-1", "HDMI-1"]),
        &"HDMI-1".to_string(),
        &"3".to_string(),
        false,
        &None,
    )
    .unwrap();
    assert_eq!(
        r,
        Command::Move {
            workspace: "3".to_string(),
            output: "HDMI-1".to_string()
        }
    );
}

#[test]
fn plan_move_away_excludes_target_and_not_list() {
    let r = plan_move(
        &outs(&["eDP-1", "HDMI-1", "DP-3"]),
        &"eDP-1".to_string(),
        &"3".to_string(),
        true,
        &Some(strings(&["HDMI-1"])),
    )
    .unwrap();
    assert_eq!(
        r,
        Command::Move {
            workspace: "3".to_string(),
            output: "DP-3".to_string()
        }
    );
}

#[test]
fn plan_move_away_with_everything_excluded_fails() {
    let r = plan_move(
        &outs(&["eDP-1", "HDMI-1"]),
        &"eDP-1".to_string(),
        &"3".to_string(),
        true,
        &Some(strings(&["HDMI-1"])),
    );
    assert_eq!(r, Err(SwayWsError::NoOutputMatched));
}

#[test]
fn plan_range_numeric_moves_each_name() {
    let r = plan_range(
        &outs(&["eDP-1", "HDMI-1"]),
        &Vec::new(),
        &RangeSpec {
            start: "1".to_string(),
            end: "2".to_string(),
            numeric: true,
        },
        &"HDMI-1".to_string(),
        false,
        &None,
    )
    .unwrap();
    assert_eq!(
        r,
        vec![
            Command::Move {
                workspace: "1".to_string(),
                output: "HDMI-1".to_string()
            },
            Command::Move {
                workspace: "2".to_string(),
                output: "HDMI-1".to_string()
            },
        ]
    );
}

#[test]
fn plan_range_empty_range_plans_nothing_even_if_selection_would_fail() {
    let r = plan_range(
        &outs(&["eDP-1"]),
        &Vec::new(),
        &RangeSpec {
            start: "5".to_string(),
            end: "3".to_string(),
            numeric: true,
        },
        &"eDP-1".to_string(),
        true,
        &None,
    )
    .unwrap();
    assert!(r.is_empty());
}

#[test]
fn plan_range_away_selection_failure_surfaces() {
    let r = plan_range(
        &outs(&["eDP-1"]),
        &Vec::new(),
        &RangeSpec {
            start: "1".to_string(),
            end: "2".to_string(),
            numeric: true,
        },
        &"eDP-1".to_string(),
        true,
        &None,
    );
    assert_eq!(r, Err(SwayWsError::NoOutputMatched));
}

#[test]
fn collect_outcomes_reports_any_failure() {
    assert_eq!(collect_outcomes(&vec![true, true]), Ok(()));
    assert_eq!(
        collect_outcomes(&vec![true, false, true]),
        Err(SwayWsError::SwayIpc)
    );
    assert_eq!(collect_outcomes(&Vec::new()), Ok(()));
}
