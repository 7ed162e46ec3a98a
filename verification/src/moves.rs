use vstd::prelude::*;

use crate::command::{Command, CommandView};
use crate::error::SwayWsError;
use crate::model::{Output, Workspace, WorkspaceView};
use crate::range::{spec_resolve, RangeSpec, RangeSpecView};
use crate::util::{get_second_output, spec_select_output};

verus! {

/// The exclusion list an "away" move works against: the explicit target
/// output plus whatever the caller listed as off-limits.
pub open spec fn spec_exclusions(output_name: Seq<char>, not: Option<Seq<Seq<char>>>) -> Seq<
    Seq<char>,
> {
    seq![output_name] + match not {
        Some(l) => l,
        None => Seq::empty(),
    }
}

/// Where a move actually sends the workspace. A plain move targets the
/// named output. An "away" move targets the first live output that is
/// neither the named output nor in the `not` list, and fails with
/// `NoOutputMatched` when only one output exists or every output is
/// excluded.
pub open spec fn spec_move_target(
    outputs: Seq<Seq<char>>,
    output_name: Seq<char>,
    away: bool,
    not: Option<Seq<Seq<char>>>,
) -> Result<Seq<char>, SwayWsError> {
    if !away {
        Ok(output_name)
    } else if outputs.len() == 1 {
        Err(SwayWsError::NoOutputMatched)
    } else {
        match spec_select_output(outputs, spec_exclusions(output_name, not)) {
            Some(n) => Ok(n),
            None => Err(SwayWsError::NoOutputMatched),
        }
    }
}

/// Builds the exclusion list for an "away" move.
fn exclusion_list(output_name: &String, not: &Option<Vec<String>>) -> (r: Vec<String>)
    ensures
        r.deep_view() == spec_exclusions(output_name@, not.deep_view()),
{
    let mut list: Vec<String> = Vec::new();
    list.push(output_name.clone());
    proof {
        assert(list.deep_view() =~= seq![output_name@]);
    }
    match not {
        Some(not_list) => {
            let ghost extra = not_list.deep_view();
            let mut i: usize = 0;
            while i < not_list.len()
                invariant
                    0 <= i <= not_list.len(),
                    extra == not_list.deep_view(),
                    extra.len() == not_list.len(),
                    list.deep_view() =~= seq![output_name@] + extra.subrange(0, i as int),
                decreases not_list.len() - i,
            {
                let ghost before = list.deep_view();
                proof {
                    assert(extra[i as int] == not_list@[i as int]@);
                }
                list.push(not_list[i].clone());
                proof {
                    assert(list.deep_view() =~= before.push(extra[i as int]));
                    assert(list.deep_view() =~= seq![output_name@] + extra.subrange(
                        0,
                        i as int + 1,
                    ));
                }
                i = i + 1;
            }
            proof {
                assert(extra.subrange(0, extra.len() as int) =~= extra);
            }
            list
        },
        None => {
            proof {
                assert(list.deep_view() =~= spec_exclusions(output_name@, not.deep_view()));
            }
            list
        },
    }
}

/// Plans one move: the command that sends `workspace` to the explicit
/// output, or — with `away` — to the first output the exclusions allow.
pub fn plan_move(
    outputs: &Vec<Output>,
    output_name: &String,
    workspace: &String,
    away: bool,
    not: &Option<Vec<String>>,
) -> (r: Result<Command, SwayWsError>)
    ensures
        r matches Ok(c) ==> (spec_move_target(
            outputs.deep_view(),
            output_name@,
            away,
            not.deep_view(),
        ) matches Ok(t) && c@ == CommandView::Move { workspace: workspace@, output: t }),
        r matches Err(e) ==> spec_move_target(
            outputs.deep_view(),
            output_name@,
            away,
            not.deep_view(),
        ) == Err::<Seq<char>, SwayWsError>(e),
{
    if !away {
        return Ok(
            Command::Move { workspace: workspace.clone(), output: output_name.clone() },
        );
    }
    let list = exclusion_list(output_name, not);
    match get_second_output(outputs, &list) {
        Ok(second) => Ok(Command::Move { workspace: workspace.clone(), output: second.name }),
        Err(e) => Err(e),
    }
}

/// What planning a whole range yields: the resolved names, each turned into
/// the same move. Resolution errors come first; the away-target is only
/// looked for when the range is non-empty, so an empty range plans no
/// commands and cannot fail on output selection.
pub open spec fn spec_plan_range(
    outputs: Seq<Seq<char>>,
    workspaces: Seq<WorkspaceView>,
    range: RangeSpecView,
    output_name: Seq<char>,
    away: bool,
    not: Option<Seq<Seq<char>>>,
) -> Result<Seq<CommandView>, SwayWsError> {
    match spec_resolve(range, workspaces) {
        Err(e) => Err(e),
        Ok(names) => if names.len() == 0 {
            Ok(Seq::empty())
        } else {
            match spec_move_target(outputs, output_name, away, not) {
                Err(e) => Err(e),
                Ok(t) => Ok(
                    Seq::new(
                        names.len(),
                        |i: int| CommandView::Move { workspace: names[i], output: t },
                    ),
                ),
            }
        },
    }
}

/// Plans a range operation: resolves the range, then one move per resolved
/// name, all to the same target.
pub fn plan_range(
    outputs: &Vec<Output>,
    workspaces: &Vec<Workspace>,
    range: &RangeSpec,
    output_name: &String,
    away: bool,
    not: &Option<Vec<String>>,
) -> (r: Result<Vec<Command>, SwayWsError>)
    ensures
        r matches Ok(cmds) ==> spec_plan_range(
            outputs.deep_view(),
            workspaces.deep_view(),
            range@,
            output_name@,
            away,
            not.deep_view(),
        ) == Ok::<Seq<CommandView>, SwayWsError>(cmds.deep_view()),
        r matches Err(e) ==> spec_plan_range(
            outputs.deep_view(),
            workspaces.deep_view(),
            range@,
            output_name@,
            away,
            not.deep_view(),
        ) == Err::<Seq<CommandView>, SwayWsError>(e),
{
    let names = match crate::range::resolve(range, workspaces) {
        Ok(names) => names,
        Err(e) => {
            return Err(e);
        },
    };
    if names.len() == 0 {
        let cmds: Vec<Command> = Vec::new();
        proof {
            assert(cmds.deep_view() =~= Seq::<CommandView>::empty());
        }
        return Ok(cmds);
    }
    let target: String = if !away {
        output_name.clone()
    } else {
        let list = exclusion_list(output_name, not);
        match get_second_output(outputs, &list) {
            Ok(second) => second.name,
            Err(e) => {
                return Err(e);
            },
        }
    };
    let ghost resolved = names.deep_view();
    let ghost t = target@;
    let mut cmds: Vec<Command> = Vec::new();
    let mut i: usize = 0;
    while i < names.len()
        invariant
            0 <= i <= names.len(),
            resolved == names.deep_view(),
            resolved.len() == names.len(),
            t == target@,
            cmds.deep_view() =~= Seq::new(
                i as nat,
                |j: int| CommandView::Move { workspace: resolved[j], output: t },
            ),
        decreases names.len() - i,
    {
        let ghost before = cmds.deep_view();
        proof {
            assert(resolved[i as int] == names@[i as int]@);
        }
        cmds.push(Command::Move { workspace: names[i].clone(), output: target.clone() });
        proof {
            assert(cmds.deep_view() =~= before.push(
                CommandView::Move { workspace: resolved[i as int], output: t },
            ));
            assert(cmds.deep_view() =~= Seq::new(
                i as nat + 1,
                |j: int| CommandView::Move { workspace: resolved[j], output: t },
            ));
        }
        i = i + 1;
    }
    Ok(cmds)
}

} // verus!
