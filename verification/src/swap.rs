use vstd::prelude::*;

use crate::command::{Command, CommandView};
use crate::model::{find_workspace_output, spec_output_of, Workspace};

verus! {

/// The reserved workspace name a swap parks the first side under while the
/// two names trade owners. A user workspace already carrying this name
/// collides with the protocol; that collision is out of scope.
pub open spec fn swap_tmp_name() -> Seq<char> {
    "swayws-swap"@
}

/// The swap protocol. Renaming directly from one of the names to the other
/// would collide, so the first side parks under the reserved temporary
/// name, the second side takes the first name, and the parked side takes
/// the second name. Renaming alone does not guarantee the desired output
/// placement under all compositor behaviours, so each name is then
/// force-moved back onto the output its side originally occupied — when
/// that side existed; an absent side gets no forced move.
pub open spec fn spec_swap_plan(
    o_l: Option<Seq<char>>,
    o_r: Option<Seq<char>>,
    ws_l: Seq<char>,
    ws_r: Seq<char>,
) -> Seq<CommandView> {
    seq![
        CommandView::Rename { from: ws_l, to: swap_tmp_name() },
        CommandView::Rename { from: ws_r, to: ws_l },
        CommandView::Rename { from: swap_tmp_name(), to: ws_r },
    ] + match o_l {
        Some(o) => seq![CommandView::Move { workspace: ws_l, output: o }],
        None => Seq::empty(),
    } + match o_r {
        Some(o) => seq![CommandView::Move { workspace: ws_r, output: o }],
        None => Seq::empty(),
    }
}

/// Plans the swap of two named workspaces against the live list: the three
/// renames, then a forced move per side that currently exists, pinning each
/// name to the output its new content's counterpart originally occupied.
pub fn plan_swap(workspaces: &Vec<Workspace>, ws_l: &String, ws_r: &String) -> (r: Vec<Command>)
    ensures
        r.deep_view() == spec_swap_plan(
            spec_output_of(workspaces.deep_view(), ws_l@),
            spec_output_of(workspaces.deep_view(), ws_r@),
            ws_l@,
            ws_r@,
        ),
{
    let ghost o_l_spec = spec_output_of(workspaces.deep_view(), ws_l@);
    let ghost o_r_spec = spec_output_of(workspaces.deep_view(), ws_r@);
    let o_l = find_workspace_output(workspaces, ws_l);
    let o_r = find_workspace_output(workspaces, ws_r);
    let mut cmds: Vec<Command> = Vec::new();
    let tmp = "swayws-swap";
    cmds.push(Command::Rename { from: ws_l.clone(), to: tmp.to_owned() });
    cmds.push(Command::Rename { from: ws_r.clone(), to: ws_l.clone() });
    cmds.push(Command::Rename { from: tmp.to_owned(), to: ws_r.clone() });
    if let Some(o) = o_l {
        cmds.push(Command::Move { workspace: ws_l.clone(), output: o });
    }
    if let Some(o) = o_r {
        cmds.push(Command::Move { workspace: ws_r.clone(), output: o });
    }
    proof {
        assert(cmds.deep_view() =~= spec_swap_plan(o_l_spec, o_r_spec, ws_l@, ws_r@));
    }
    cmds
}

} // verus!
