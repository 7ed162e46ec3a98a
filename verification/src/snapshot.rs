use vstd::prelude::*;

use crate::command::{Command, CommandView};
use crate::model::{Workspace, WorkspaceView};

verus! {

/// The focus and visibility state captured once before an invocation
/// mutates anything, and consumed once at the end to put the user's view
/// back: every name that was visible, in the order the compositor listed
/// them, and the single focused name if there was one.
#[derive(Debug, Clone, PartialEq, Eq)]
pub struct Snapshot {
    pub visible_names: Vec<String>,
    pub focused_name: Option<String>,
}

/// The mathematical shadow of a [`Snapshot`].
pub ghost struct SnapshotView {
    pub visible: Seq<Seq<char>>,
    pub focused: Option<Seq<char>>,
}

impl View for Snapshot {
    type V = SnapshotView;

    open spec fn view(&self) -> SnapshotView {
        SnapshotView { visible: self.visible_names.deep_view(), focused: self.focused_name.deep_view() }
    }
}

/// The names of the visible workspaces, in list order.
pub open spec fn spec_visible_names(workspaces: Seq<WorkspaceView>) -> Seq<Seq<char>>
    decreases workspaces.len(),
{
    if workspaces.len() == 0 {
        Seq::empty()
    } else {
        spec_visible_names(workspaces.drop_last()) + (if workspaces.last().visible {
            seq![workspaces.last().name]
        } else {
            Seq::empty()
        })
    }
}

/// The name of the last focused entry in the list, if any is focused. The
/// compositor keeps at most one workspace focused, so "last" only settles
/// what a malformed list would mean.
pub open spec fn spec_last_focused(workspaces: Seq<WorkspaceView>) -> Option<Seq<char>>
    decreases workspaces.len(),
{
    if workspaces.len() == 0 {
        None
    } else if workspaces.last().focused {
        Some(workspaces.last().name)
    } else {
        spec_last_focused(workspaces.drop_last())
    }
}

/// What the focused name of a snapshot becomes after `ws_l` and `ws_r`
/// trade names: if the focus was on one of the two, it now answers to the
/// other name.
pub open spec fn spec_swap_focus(f: Option<Seq<char>>, ws_l: Seq<char>, ws_r: Seq<char>) -> Option<
    Seq<char>,
> {
    match f {
        Some(x) => if x == ws_l {
            Some(ws_r)
        } else if x == ws_r {
            Some(ws_l)
        } else {
            Some(x)
        },
        None => None,
    }
}

/// The restore pass as commands: focus every previously visible name in
/// order, then focus the previously focused name, so that the last focus —
/// the one the user ends on — matches the pre-invocation state.
pub open spec fn spec_restore_plan(s: SnapshotView) -> Seq<CommandView> {
    Seq::new(s.visible.len(), |i: int| CommandView::Focus { name: s.visible[i] }) + (match s.focused {
        Some(f) => seq![CommandView::Focus { name: f }],
        None => Seq::empty(),
    })
}

/// A snapshot taken from a well-formed state — one where the focused
/// workspace is visible, as the compositor keeps it — names its focused
/// workspace among its visible names. The restore round trip assumes
/// exactly this of the snapshot it replays.
pub proof fn lemma_captured_focus_is_visible(workspaces: Seq<WorkspaceView>)
    requires
        forall|i: int|
            0 <= i < workspaces.len() ==> (#[trigger] workspaces[i].focused
                ==> workspaces[i].visible),
    ensures
        match spec_last_focused(workspaces) {
            Some(f) => spec_visible_names(workspaces).contains(f),
            None => true,
        },
    decreases workspaces.len(),
{
    if workspaces.len() > 0 {
        let last = workspaces.last();
        let prev = workspaces.drop_last();
        if last.focused {
            assert(workspaces[workspaces.len() - 1] == last);
            assert(last.visible);
            let vn = spec_visible_names(workspaces);
            assert(vn == spec_visible_names(prev) + seq![last.name]);
            assert(vn[vn.len() - 1] == last.name);
            assert(vn.contains(last.name));
        } else {
            assert(forall|i: int| 0 <= i < prev.len() ==> prev[i] == workspaces[i]);
            lemma_captured_focus_is_visible(prev);
            match spec_last_focused(prev) {
                Some(f) => {
                    let pvn = spec_visible_names(prev);
                    let i = choose|i: int| 0 <= i < pvn.len() && pvn[i] == f;
                    let vn = spec_visible_names(workspaces);
                    assert(vn[i] == f);
                    assert(vn.contains(f));
                },
                None => {},
            }
        }
    }
}

impl Snapshot {
    /// Reads the full workspace list once and extracts the visible names in
    /// list order and the focused name, if any entry is focused.
    pub fn capture(workspaces: &Vec<Workspace>) -> (s: Snapshot)
        ensures
            s@.visible == spec_visible_names(workspaces.deep_view()),
            s@.focused == spec_last_focused(workspaces.deep_view()),
    {
        let ghost all = workspaces.deep_view();
        let mut visible_names: Vec<String> = Vec::new();
        let mut focused_name: Option<String> = None;
        proof {
            assert(all.subrange(0, 0) =~= Seq::<WorkspaceView>::empty());
            assert(visible_names.deep_view() =~= spec_visible_names(all.subrange(0, 0)));
        }
        let mut i: usize = 0;
        while i < workspaces.len()
            invariant
                0 <= i <= workspaces.len(),
                all == workspaces.deep_view(),
                all.len() == workspaces.len(),
                visible_names.deep_view() == spec_visible_names(all.subrange(0, i as int)),
                focused_name.deep_view() == spec_last_focused(all.subrange(0, i as int)),
            decreases workspaces.len() - i,
        {
            let ghost pre = all.subrange(0, i as int);
            let ghost post = all.subrange(0, i as int + 1);
            proof {
                assert(post.drop_last() =~= pre);
                assert(post.last() == all[i as int]);
                assert(all[i as int] == workspaces@[i as int].deep_view());
            }
            if workspaces[i].visible {
                let ghost before = visible_names.deep_view();
                visible_names.push(workspaces[i].name.clone());
                proof {
                    assert(visible_names.deep_view() =~= before.push(all[i as int].name));
                    assert(visible_names.deep_view() =~= spec_visible_names(post));
                }
            } else {
                proof {
                    assert(spec_visible_names(post) =~= spec_visible_names(pre));
                }
            }
            if workspaces[i].focused {
                focused_name = Some(workspaces[i].name.clone());
            }
            i = i + 1;
        }
        proof {
            assert(all.subrange(0, all.len() as int) =~= all);
        }
        Snapshot { visible_names, focused_name }
    }

    /// After a swap, a snapshot that pointed at one of the two swapped
    /// names must point at the other: the name changed owners, and the
    /// restore pass follows names.
    pub fn adjust_focus_for_swap(&mut self, ws_l: &String, ws_r: &String)
        ensures
            final(self).visible_names == old(self).visible_names,
            final(self)@.focused == spec_swap_focus(old(self)@.focused, ws_l@, ws_r@),
    {
        let replacement: Option<String> = match &self.focused_name {
            Some(f) => {
                if f.eq(ws_l) {
                    Some(ws_r.clone())
                } else if f.eq(ws_r) {
                    Some(ws_l.clone())
                } else {
                    None
                }
            },
            None => None,
        };
        if let Some(nf) = replacement {
            self.focused_name = Some(nf);
        }
    }

    /// The commands of the restore pass: one focus per previously visible
    /// name, in order, then a final focus of the previously focused name.
    pub fn restore_plan(&self) -> (r: Vec<Command>)
        ensures
            r.deep_view() == spec_restore_plan(self@),
    {
        let mut cmds: Vec<Command> = Vec::new();
        let ghost names = self.visible_names.deep_view();
        let mut i: usize = 0;
        while i < self.visible_names.len()
            invariant
                0 <= i <= self.visible_names.len(),
                names == self.visible_names.deep_view(),
                names.len() == self.visible_names.len(),
                cmds.deep_view() =~= Seq::new(
                    i as nat,
                    |j: int| CommandView::Focus { name: names[j] },
                ),
            decreases self.visible_names.len() - i,
        {
            let ghost before = cmds.deep_view();
            proof {
                assert(names[i as int] == self.visible_names@[i as int]@);
            }
            cmds.push(Command::Focus { name: self.visible_names[i].clone() });
            proof {
                assert(cmds.deep_view() =~= before.push(
                    CommandView::Focus { name: names[i as int] },
                ));
                assert(cmds.deep_view() =~= Seq::new(
                    i as nat + 1,
                    |j: int| CommandView::Focus { name: names[j] },
                ));
            }
            i = i + 1;
        }
        match &self.focused_name {
            Some(f) => {
                let ghost before = cmds.deep_view();
                cmds.push(Command::Focus { name: f.clone() });
                proof {
                    assert(cmds.deep_view() =~= before.push(CommandView::Focus { name: f@ }));
                    assert(cmds.deep_view() =~= spec_restore_plan(self@));
                }
            },
            None => {
                proof {
                    assert(cmds.deep_view() =~= spec_restore_plan(self@));
                }
            },
        }
        cmds
    }
}

} // verus!
