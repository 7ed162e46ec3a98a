use swayws::model::Output;
use swayws::provision::{
    have_output_with_suffix, missing_suffixes, provision_step, retire_all_plan, ProvisionStep,
};
use swayws::Command;

fn outs(names: &[&str]) -> Vec<Output> {
    names
        .iter()
        .map(|n| Output {
            name: n.to_string(),
        })
        .collect()
}

fn strings(names: &[&str]) -> Vec<String> {
    names.iter().map(|n| n.to_string()).collect()
}

#[test]
fn suffix_check_sees_only_virtual_outputs() {
    let outputs = outs(&["eDP-A", "HEADLESS-1A"]);
    assert!(have_output_with_suffix("A", &outputs));
    // The real output ending in "A" does not count.
    let outputs = outs(&["eDP-A"]);
    assert!(!have_output_with_suffix("A", &outputs));
}

#[test]
fn missing_suffixes_drops_satisfied_ones() {
    let outputs = outs(&["HEADLESS-1A", "eDP-1"]);
    let left = missing_suffixes(&strings(&["A", "B"]), &outputs);
    assert_eq!(left, vec!["B".to_string()]);
}

#[test]
fn missing_suffixes_is_empty_when_all_satisfied() {
    let outputs = outs(&["HEADLESS-1A", "HEADLESS-2B"]);
    let left = missing_suffixes(&strings(&["A", "B"]), &outputs);
    assert!(left.is_empty());
}

#[test]
fn missing_suffixes_keeps_everything_with_no_virtual_outputs() {
    let outputs = outs(&["eDP-1"]);
    let left = missing_suffixes(&strings(&["A", "B"]), &outputs);
    assert_eq!(left, vec!["A".to_string(), "B".to_string()]);
}

#[test]
fn step_is_satisfied_when_suffix_exists() {
    let outputs = outs(&["HEADLESS-1A"]);
    assert_eq!(
        provision_step("A", &outputs, true),
        ProvisionStep::Satisfied
    );
}

#[test]
fn step_creates_on_first_round() {
    let outputs = outs(&["eDP-1"]);
    assert_eq!(provision_step("A", &outputs, true), ProvisionStep::Create);
}

#[test]
fn step_recycles_latest_virtual_output_on_retry() {
    let outputs = outs(&["eDP-1", "HEADLESS-1", "HEADLESS-2", "DP-9"]);
    assert_eq!(
        provision_step("A", &outputs, false),
        ProvisionStep::RecycleThenCreate {
            unplug: "HEADLESS-2".to_string()
        }
    );
}

#[test]
fn step_creates_on_retry_when_nothing_can_be_recycled() {
    let outputs = outs(&["eDP-1"]);
    assert_eq!(provision_step("A", &outputs, false), ProvisionStep::Create);
}

#[test]
fn provisioning_two_suffixes_from_nothing_creates_exactly_two() {
    // Simulated compositor: creation appends a virtual output whose
    // synthetic name happens to end with the wanted suffix, as a cooperative
    // compositor's would after the working set was filtered.
    let mut outputs = outs(&["eDP-1"]);
    let wanted = strings(&["A", "B"]);
    let mut created: usize = 0;
    let todo = missing_suffixes(&wanted, &outputs);
    assert_eq!(todo, wanted);
    for suffix in &todo {
        let mut first_round = true;
        loop {
            match provision_step(suffix, &outputs, first_round) {
                ProvisionStep::Satisfied => break,
                ProvisionStep::Create => {
                    outputs.push(Output {
                        name: format!("HEADLESS-{}{}", created + 1, suffix),
                    });
                    created += 1;
                    first_round = false;
                }
                ProvisionStep::RecycleThenCreate { unplug } => {
                    outputs.retain(|o| o.name != unplug);
                    outputs.push(Output {
                        name: format!("HEADLESS-{}{}", created + 1, suffix),
                    });
                    created += 1;
                    first_round = false;
                }
            }
        }
    }
    assert_eq!(created, 2);
    assert!(have_output_with_suffix("A", &outputs));
    assert!(have_output_with_suffix("B", &outputs));
}

#[test]
fn provisioning_is_a_no_op_when_both_suffixes_exist() {
    let outputs = outs(&["eDP-1", "HEADLESS-1A", "HEADLESS-2B"]);
    let todo = missing_suffixes(&strings(&["A", "B"]), &outputs);
    assert!(todo.is_empty());
    // Even asked directly, the step issues no creation.
    assert_eq!(
        provision_step("A", &outputs, true),
        ProvisionStep::Satisfied
    );
    assert_eq!(
        provision_step("B", &outputs, true),
        ProvisionStep::Satisfied
    );
}

#[test]
fn provisioning_recycles_an_unhelpful_creation() {
    // A compositor that first hands back a name with the wrong suffix: the
    // second round recycles that output before trying again.
    let mut outputs = outs(&["eDP-1"]);
    assert_eq!(provision_step("A", &outputs, true), ProvisionStep::Create);
    outputs.push(Output {
        name: "HEADLESS-1".to_string(),
    });
    assert_eq!(
        provision_step("A", &outputs, false),
        ProvisionStep::RecycleThenCreate {
            unplug: "HEADLESS-1".to_string()
        }
    );
}

#[test]
fn retire_all_unplugs_every_virtual_output_in_order() {
    let outputs = outs(&["eDP-1", "HEADLESS-1", "DP-2", "HEADLESS-2"]);
    let plan = retire_all_plan(&outputs);
    assert_eq!(
        plan,
        vec![
            Command::Unplug {
                output: "HEADLESS-1".to_string()
            },
            Command::Unplug {
                output: "HEADLESS-2".to_string()
            },
        ]
    );
}

#[test]
fn retire_all_with_no_virtual_outputs_plans_nothing() {
    let plan = retire_all_plan(&outs(&["eDP-1"]));
    assert!(plan.is_empty());
}

#[test]
fn output_is_virtual_goes_by_the_reserved_prefix() {
    assert!(Output {
        name: "HEADLESS-7".to_string()
    }
    .is_virtual());
    assert!(!Output {
        name: "eDP-1".to_string()
    }
    .is_virtual());
    assert!(!Output {
        name: "HEADLESS".to_string()
    }
    .is_virtual());
}
