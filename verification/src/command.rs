use vstd::prelude::*;

use crate::num::{i32_to_string, int_to_dec_str};

verus! {

/// One primitive command for the compositor, as structured data. The
/// channel takes text; [`render_command`] produces exactly the text each
/// variant stands for.
#[derive(Debug, Clone, PartialEq, Eq)]
pub enum Command {
    /// Focus the workspace with this name, creating it if absent.
    Focus { name: String },
    /// Focus the workspace carrying this numeric prefix.
    FocusNumber { num: i32 },
    /// The compound move: bind the workspace name to the output, switch to
    /// the workspace, and relocate it there.
    Move { workspace: String, output: String },
    /// Rename one workspace.
    Rename { from: String, to: String },
    /// Unplug one (virtual) output.
    Unplug { output: String },
    /// Create one headless output; the compositor picks its name.
    CreateOutput,
}

/// The mathematical shadow of a [`Command`].
pub ghost enum CommandView {
    Focus { name: Seq<char> },
    FocusNumber { num: int },
    Move { workspace: Seq<char>, output: Seq<char> },
    Rename { from: Seq<char>, to: Seq<char> },
    Unplug { output: Seq<char> },
    CreateOutput,
}

impl View for Command {
    type V = CommandView;

    open spec fn view(&self) -> CommandView {
        match self {
            Command::Focus { name } => CommandView::Focus { name: name@ },
            Command::FocusNumber { num } => CommandView::FocusNumber { num: *num as int },
            Command::Move { workspace, output } => CommandView::Move {
                workspace: workspace@,
                output: output@,
            },
            Command::Rename { from, to } => CommandView::Rename { from: from@, to: to@ },
            Command::Unplug { output } => CommandView::Unplug { output: output@ },
            Command::CreateOutput => CommandView::CreateOutput,
        }
    }
}

impl DeepView for Command {
    type V = CommandView;

    open spec fn deep_view(&self) -> CommandView {
        self.view()
    }
}

/// The text a command is sent as: the compositor's own little command
/// language, one phrase per primitive.
pub open spec fn spec_render(c: CommandView) -> Seq<char> {
    match c {
        CommandView::Focus { name } => "workspace "@ + name,
        CommandView::FocusNumber { num } => "workspace number "@ + int_to_dec_str(num),
        CommandView::Move { workspace, output } => "workspace "@ + workspace + " output "@
            + output + ", workspace "@ + workspace + ", move workspace to "@ + output,
        CommandView::Rename { from, to } => "rename workspace "@ + from + " to "@ + to,
        CommandView::Unplug { output } => "output "@ + output + " unplug"@,
        CommandView::CreateOutput => "create_output"@,
    }
}

/// Renders one command as the exact text the channel should carry.
pub fn render_command(c: &Command) -> (r: String)
    ensures
        r@ == spec_render(c@),
{
    match c {
        Command::Focus { name } => {
            let mut s = "workspace ".to_owned();
            s.append(name.as_str());
            proof {
                assert(s@ =~= spec_render(c@));
            }
            s
        },
        Command::FocusNumber { num } => {
            let mut s = "workspace number ".to_owned();
            let digits = i32_to_string(*num);
            s.append(digits.as_str());
            proof {
                assert(s@ =~= spec_render(c@));
            }
            s
        },
        Command::Move { workspace, output } => {
            let mut s = "workspace ".to_owned();
            s.append(workspace.as_str());
            s.append(" output ");
            s.append(output.as_str());
            s.append(", workspace ");
            s.append(workspace.as_str());
            s.append(", move workspace to ");
            s.append(output.as_str());
            proof {
                assert(s@ =~= spec_render(c@));
            }
            s
        },
        Command::Rename { from, to } => {
            let mut s = "rename workspace ".to_owned();
            s.append(from.as_str());
            s.append(" to ");
            s.append(to.as_str());
            proof {
                assert(s@ =~= spec_render(c@));
            }
            s
        },
        Command::Unplug { output } => {
            let mut s = "output ".to_owned();
            s.append(output.as_str());
            s.append(" unplug");
            proof {
                assert(s@ =~= spec_render(c@));
            }
            s
        },
        Command::CreateOutput => {
            "create_output".to_owned()
        },
    }
}

} // verus!
