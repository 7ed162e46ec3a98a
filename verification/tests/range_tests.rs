use swayws::model::Workspace;
use swayws::range::{resolve, RangeSpec};
use swayws::SwayWsError;

fn ws(id: i64, name: &str, output: &str, visible: bool, focused: bool) -> Workspace {
    Workspace {
        id,
        num: None,
        name: name.to_string(),
        output: output.to_string(),
        visible,
        focused,
    }
}

fn live(names: &[&str]) -> Vec<Workspace> {
    names
        .iter()
        .enumerate()
        .map(|(i, n)| ws(i as i64 + 1, n, "eDP-1", false, false))
        .collect()
}

fn spec(start: &str, end: &str, numeric: bool) -> RangeSpec {
    RangeSpec {
        start: start.to_string(),
        end: end.to_string(),
        numeric,
    }
}

#[test]
fn numeric_range_ascending() {
    let r = resolve(&spec("3", "5", true), &Vec::new()).unwrap();
    assert_eq!(r, vec!["3".to_string(), "4".to_string(), "5".to_string()]);
}

#[test]
fn numeric_range_descending_is_empty() {
    let r = resolve(&spec("5", "3", true), &Vec::new()).unwrap();
    assert!(r.is_empty());
}

#[test]
fn numeric_range_single() {
    let r = resolve(&spec("7", "7", true), &Vec::new()).unwrap();
    assert_eq!(r, vec!["7".to_string()]);
}

#[test]
fn numeric_range_negative_bounds() {
    let r = resolve(&spec("-2", "1", true), &Vec::new()).unwrap();
    assert_eq!(
        r,
        vec![
            "-2".to_string(),
            "-1".to_string(),
            "0".to_string(),
            "1".to_string()
        ]
    );
}

#[test]
fn numeric_range_rejects_non_numeric_start() {
    let r = resolve(&spec("x", "5", true), &Vec::new());
    assert_eq!(r, Err(SwayWsError::Parse));
}

#[test]
fn numeric_range_rejects_non_numeric_end() {
    let r = resolve(&spec("3", "y", true), &Vec::new());
    assert_eq!(r, Err(SwayWsError::Parse));
}

#[test]
fn numeric_range_rejects_overflowing_bound() {
    let r = resolve(&spec("3", "2147483648", true), &Vec::new());
    assert_eq!(r, Err(SwayWsError::Parse));
}

#[test]
fn name_scan_inner_range() {
    let wss = live(&["1", "2", "3", "4"]);
    let r = resolve(&spec("2", "4", false), &wss).unwrap();
    assert_eq!(r, vec!["2".to_string(), "3".to_string(), "4".to_string()]);
}

#[test]
fn name_scan_start_missing_is_empty() {
    let wss = live(&["1", "2", "3", "4"]);
    let r = resolve(&spec("x", "4", false), &wss).unwrap();
    assert!(r.is_empty());
}

#[test]
fn name_scan_end_missing_runs_to_list_end() {
    let wss = live(&["1", "2", "3", "4"]);
    let r = resolve(&spec("3", "x", false), &wss).unwrap();
    assert_eq!(r, vec!["3".to_string(), "4".to_string()]);
}

#[test]
fn name_scan_start_equals_end_takes_one() {
    let wss = live(&["1", "2", "3", "4"]);
    let r = resolve(&spec("2", "2", false), &wss).unwrap();
    assert_eq!(r, vec!["2".to_string()]);
}

#[test]
fn name_scan_follows_compositor_order_not_sorted_order() {
    let wss = live(&["9", "2", "7", "4"]);
    let r = resolve(&spec("2", "4", false), &wss).unwrap();
    assert_eq!(r, vec!["2".to_string(), "7".to_string(), "4".to_string()]);
}

#[test]
fn name_scan_restarts_when_start_reappears() {
    let wss = live(&["2", "4", "9", "2", "5"]);
    let r = resolve(&spec("2", "4", false), &wss).unwrap();
    assert_eq!(
        r,
        vec![
            "2".to_string(),
            "4".to_string(),
            "2".to_string(),
            "5".to_string()
        ]
    );
}
