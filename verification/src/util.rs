use vstd::prelude::*;

use crate::command::{spec_render, Command, CommandView};
use crate::error::SwayWsError;
use crate::model::{Output, Workspace, WorkspaceView};

verus! {

/// The text that focuses a workspace by name.
pub fn focus_workspace(workspace_name: &str) -> (r: String)
    ensures
        r@ == spec_render(CommandView::Focus { name: workspace_name@ }),
{
    crate::command::render_command(&Command::Focus { name: workspace_name.to_owned() })
}

/// The text that focuses a workspace by its numeric prefix.
pub fn focus_workspace_number(workspace_num: i32) -> (r: String)
    ensures
        r@ == spec_render(CommandView::FocusNumber { num: workspace_num as int }),
{
    crate::command::render_command(&Command::FocusNumber { num: workspace_num })
}

/// The compound text that binds a workspace name to an output, switches to
/// it, and relocates it there. The three sub-commands are sent as one
/// request; the compositor reports on each independently.
pub fn move_workspace_to_output(workspace_name: &str, output_name: &str) -> (r: String)
    ensures
        r@ == spec_render(
            CommandView::Move { workspace: workspace_name@, output: output_name@ },
        ),
{
    crate::command::render_command(
        &Command::Move { workspace: workspace_name.to_owned(), output: output_name.to_owned() },
    )
}

/// The text that renames one workspace.
pub fn rename_workspace(from: &str, to: &str) -> (r: String)
    ensures
        r@ == spec_render(CommandView::Rename { from: from@, to: to@ }),
{
    crate::command::render_command(&Command::Rename { from: from.to_owned(), to: to.to_owned() })
}

/// `v` occurs nowhere in `list`.
pub fn is_not_in_list(v: &String, list: &Vec<String>) -> (r: bool)
    ensures
        r == !list.deep_view().contains(v@),
{
    let ghost names = list.deep_view();
    let mut i: usize = 0;
    while i < list.len()
        invariant
            0 <= i <= list.len(),
            names == list.deep_view(),
            names.len() == list.len(),
            forall|j: int| 0 <= j < i ==> names[j] != v@,
        decreases list.len() - i,
    {
        proof {
            assert(names[i as int] == list@[i as int]@);
        }
        if list[i].eq(v) {
            proof {
                assert(names.contains(v@)) by {
                    assert(names[i as int] == v@);
                }
            }
            return false;
        }
        i = i + 1;
    }
    proof {
        assert(!names.contains(v@)) by {
            assert(forall|j: int| 0 <= j < names.len() ==> names[j] != v@);
        }
    }
    true
}

/// The first output, in compositor order, whose name is not excluded; or
/// nothing, when every output is excluded.
pub open spec fn spec_select_output(outputs: Seq<Seq<char>>, excluded: Seq<Seq<char>>) -> Option<
    Seq<char>,
>
    decreases outputs.len(),
{
    if outputs.len() == 0 {
        None
    } else if !excluded.contains(outputs[0]) {
        Some(outputs[0])
    } else {
        spec_select_output(outputs.skip(1), excluded)
    }
}

/// Picks the output a workspace should be sent "away" to: the first live
/// output whose name is not in `output_names`. Fails with `NoOutputMatched`
/// when there is only one output at all — nothing to select away from — or
/// when the exclusions rule every output out.
pub fn get_second_output(outputs: &Vec<Output>, output_names: &Vec<String>) -> (r: Result<
    Output,
    SwayWsError,
>)
    ensures
        r is Ok <==> (outputs@.len() != 1 && spec_select_output(
            outputs.deep_view(),
            output_names.deep_view(),
        ) is Some),
        r matches Ok(o) ==> o@ == spec_select_output(
            outputs.deep_view(),
            output_names.deep_view(),
        )->0,
        r is Err ==> r == Err::<Output, SwayWsError>(SwayWsError::NoOutputMatched),
{
    let ghost all = outputs.deep_view();
    let ghost excl = output_names.deep_view();
    if outputs.len() == 1 {
        return Err(SwayWsError::NoOutputMatched);
    }
    proof {
        assert(all.skip(0) =~= all);
    }
    let mut i: usize = 0;
    while i < outputs.len()
        invariant
            0 <= i <= outputs.len(),
            all == outputs.deep_view(),
            excl == output_names.deep_view(),
            all.len() == outputs.len(),
            all.len() != 1,
            spec_select_output(all, excl) == spec_select_output(all.skip(i as int), excl),
        decreases outputs.len() - i,
    {
        proof {
            assert(all.skip(i as int)[0] == all[i as int]);
            assert(all[i as int] == outputs@[i as int].deep_view());
        }
        if is_not_in_list(&outputs[i].name, output_names) {
            let r = Ok(Output { name: outputs[i].name.clone() });
            proof {
                assert(spec_select_output(all.skip(i as int), excl) == Some(all[i as int]));
            }
            return r;
        }
        proof {
            assert(spec_select_output(all.skip(i as int), excl) == spec_select_output(
                all.skip(i as int).skip(1),
                excl,
            ));
            assert(all.skip(i as int).skip(1) =~= all.skip(i as int + 1));
        }
        i = i + 1;
    }
    proof {
        assert(all.skip(i as int).len() == 0);
    }
    Err(SwayWsError::NoOutputMatched)
}

/// The first workspace with this id, if any.
pub open spec fn spec_name_of_id(workspaces: Seq<WorkspaceView>, id: int) -> Option<Seq<char>>
    decreases workspaces.len(),
{
    if workspaces.len() == 0 {
        None
    } else if workspaces[0].id == id {
        Some(workspaces[0].name)
    } else {
        spec_name_of_id(workspaces.skip(1), id)
    }
}

/// The text that focuses a workspace by name.
pub fn focus_workspace_by_name(name: &str) -> (r: String)
    ensures
        r@ == spec_render(CommandView::Focus { name: name@ }),
{
    focus_workspace(name)
}

/// The text that focuses a workspace by numeric prefix.
pub fn focus_workspace_by_num(num: i32) -> (r: String)
    ensures
        r@ == spec_render(CommandView::FocusNumber { num: num as int }),
{
    focus_workspace_number(num)
}

/// Resolves an opaque workspace id against the live list and produces the
/// text that focuses the workspace under its current name; fails with
/// `NoWorkspaceWithId` when no live workspace carries the id.
pub fn focus_workspace_by_id(workspaces: &Vec<Workspace>, id: i64) -> (r: Result<
    String,
    SwayWsError,
>)
    ensures
        r is Ok <==> spec_name_of_id(workspaces.deep_view(), id as int) is Some,
        r matches Ok(t) ==> t@ == spec_render(
            CommandView::Focus { name: spec_name_of_id(workspaces.deep_view(), id as int)->0 },
        ),
        r is Err ==> r == Err::<String, SwayWsError>(SwayWsError::NoWorkspaceWithId { id }),
{
    let ghost all = workspaces.deep_view();
    proof {
        assert(all.skip(0) =~= all);
    }
    let mut i: usize = 0;
    while i < workspaces.len()
        invariant
            0 <= i <= workspaces.len(),
            all == workspaces.deep_view(),
            all.len() == workspaces.len(),
            spec_name_of_id(all, id as int) == spec_name_of_id(all.skip(i as int), id as int),
        decreases workspaces.len() - i,
    {
        proof {
            assert(all.skip(i as int)[0] == all[i as int]);
            assert(all[i as int] == workspaces@[i as int].deep_view());
        }
        if workspaces[i].id == id {
            let r = Ok(focus_workspace(workspaces[i].name.as_str()));
            proof {
                assert(spec_name_of_id(all.skip(i as int), id as int) == Some(
                    all[i as int].name,
                ));
            }
            return r;
        }
        proof {
            assert(spec_name_of_id(all.skip(i as int), id as int) == spec_name_of_id(
                all.skip(i as int).skip(1),
                id as int,
            ));
            assert(all.skip(i as int).skip(1) =~= all.skip(i as int + 1));
        }
        i = i + 1;
    }
    proof {
        assert(all.skip(i as int).len() == 0);
    }
    Err(SwayWsError::NoWorkspaceWithId { id })
}

/// Folds the per-sub-command outcomes of one request into one result:
/// `Ok` exactly when no sub-command failed. A failed sub-command does not
/// stop the compositor from attempting the later ones, so the fold is
/// aggregate rather than first-failure-aborts.
pub fn collect_outcomes(outcomes: &Vec<bool>) -> (r: Result<(), SwayWsError>)
    ensures
        r is Ok <==> (forall|i: int| 0 <= i < outcomes@.len() ==> outcomes@[i]),
        r is Err ==> r == Err::<(), SwayWsError>(SwayWsError::SwayIpc),
{
    let mut i: usize = 0;
    while i < outcomes.len()
        invariant
            0 <= i <= outcomes.len(),
            forall|j: int| 0 <= j < i ==> outcomes@[j],
        decreases outcomes.len() - i,
    {
        if !outcomes[i] {
            return Err(SwayWsError::SwayIpc);
        }
        i = i + 1;
    }
    Ok(())
}

} // verus!
