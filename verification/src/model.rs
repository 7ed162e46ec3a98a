use vstd::prelude::*;

verus! {

/// One workspace as the compositor reports it: an opaque id, an optional
/// numeric prefix, a name that is unique among live workspaces, the name of
/// the output it sits on, and its focus/visibility flags. At most one
/// workspace is focused at a time; at most one workspace per output is
/// visible.
#[derive(Debug, Clone, PartialEq, Eq)]
pub struct Workspace {
    pub id: i64,
    pub num: Option<i32>,
    pub name: String,
    pub output: String,
    pub visible: bool,
    pub focused: bool,
}

/// The mathematical shadow of a [`Workspace`]: the same record over `int`
/// and `Seq<char>`.
pub ghost struct WorkspaceView {
    pub id: int,
    pub num: Option<int>,
    pub name: Seq<char>,
    pub output: Seq<char>,
    pub visible: bool,
    pub focused: bool,
}

impl View for Workspace {
    type V = WorkspaceView;

    open spec fn view(&self) -> WorkspaceView {
        WorkspaceView {
            id: self.id as int,
            num: match self.num {
                Some(n) => Some(n as int),
                None => None,
            },
            name: self.name@,
            output: self.output@,
            visible: self.visible,
            focused: self.focused,
        }
    }
}

impl DeepView for Workspace {
    type V = WorkspaceView;

    open spec fn deep_view(&self) -> WorkspaceView {
        self.view()
    }
}

/// One display surface. Only the name matters to this layer: whether an
/// output is virtual is decided by a reserved name prefix, and every command
/// addresses an output by name.
#[derive(Debug, Clone, PartialEq, Eq)]
pub struct Output {
    pub name: String,
}

impl View for Output {
    type V = Seq<char>;

    open spec fn view(&self) -> Seq<char> {
        self.name@
    }
}

impl DeepView for Output {
    type V = Seq<char>;

    open spec fn deep_view(&self) -> Seq<char> {
        self.view()
    }
}

/// The name of the output that currently hosts the first workspace called
/// `name`, or `None` when no live workspace has that name.
pub open spec fn spec_output_of(workspaces: Seq<WorkspaceView>, name: Seq<char>) -> Option<
    Seq<char>,
>
    decreases workspaces.len(),
{
    if workspaces.len() == 0 {
        None
    } else if workspaces[0].name == name {
        Some(workspaces[0].output)
    } else {
        spec_output_of(workspaces.skip(1), name)
    }
}

/// Looks a workspace up by name and reports the output it sits on, taking
/// the first match in compositor order.
pub fn find_workspace_output(workspaces: &Vec<Workspace>, name: &String) -> (r: Option<String>)
    ensures
        r.deep_view() == spec_output_of(workspaces.deep_view(), name@),
{
    let ghost all = workspaces.deep_view();
    proof {
        assert(all.skip(0) =~= all);
    }
    let mut i: usize = 0;
    while i < workspaces.len()
        invariant
            0 <= i <= workspaces.len(),
            all == workspaces.deep_view(),
            all.len() == workspaces.len(),
            spec_output_of(all, name@) == spec_output_of(all.skip(i as int), name@),
        decreases workspaces.len() - i,
    {
        proof {
            assert(all.skip(i as int)[0] == all[i as int]);
            assert(all[i as int] == workspaces@[i as int].deep_view());
        }
        if workspaces[i].name.eq(name) {
            let r = Some(workspaces[i].output.clone());
            proof {
                assert(spec_output_of(all.skip(i as int), name@) == Some(all[i as int].output));
            }
            return r;
        }
        proof {
            assert(spec_output_of(all.skip(i as int), name@) == spec_output_of(
                all.skip(i as int).skip(1),
                name@,
            ));
            assert(all.skip(i as int).skip(1) =~= all.skip(i as int + 1));
        }
        i = i + 1;
    }
    proof {
        assert(all.skip(i as int).len() == 0);
    }
    None
}

} // verus!
