use vstd::prelude::*;

use crate::command::{spec_render, CommandView};
use crate::error::SwayWsError;
use crate::model::{Workspace, WorkspaceView};
use crate::num::{parse_i32, parse_i64, str_int_val, str_is_int};
use crate::util::{focus_workspace_by_id, focus_workspace_by_name, focus_workspace_by_num, spec_name_of_id};

verus! {

/// A focus request as it arrives from the command line: at most one of the
/// mode flags is set, and `workspace` is the single positional argument the
/// chosen mode interprets.
#[derive(Debug, Clone, PartialEq, Eq)]
pub struct Focus {
    pub name: bool,
    pub num: bool,
    pub id: bool,
    pub smart: bool,
    pub workspace: String,
}

/// The mathematical shadow of a [`Focus`].
pub ghost struct FocusArgsView {
    pub name: bool,
    pub num: bool,
    pub id: bool,
    pub smart: bool,
    pub workspace: Seq<char>,
}

impl View for Focus {
    type V = FocusArgsView;

    open spec fn view(&self) -> FocusArgsView {
        FocusArgsView {
            name: self.name,
            num: self.num,
            id: self.id,
            smart: self.smart,
            workspace: self.workspace@,
        }
    }
}

/// A focus request decided: by literal name, by numeric prefix, or by
/// opaque workspace id.
#[derive(Debug, Clone, PartialEq, Eq)]
pub enum FocusBy {
    Name(String),
    Num(i32),
    Id(i64),
}

/// The mathematical shadow of a [`FocusBy`].
pub ghost enum FocusByView {
    Name(Seq<char>),
    Num(int),
    Id(int),
}

impl View for FocusBy {
    type V = FocusByView;

    open spec fn view(&self) -> FocusByView {
        match self {
            FocusBy::Name(n) => FocusByView::Name(n@),
            FocusBy::Num(n) => FocusByView::Num(*n as int),
            FocusBy::Id(n) => FocusByView::Id(*n as int),
        }
    }
}

/// `s` parses as an `i32`.
pub open spec fn spec_fits_i32(s: Seq<char>) -> bool {
    str_is_int(s) && i32::MIN <= str_int_val(s) <= i32::MAX
}

/// `s` parses as an `i64`.
pub open spec fn spec_fits_i64(s: Seq<char>) -> bool {
    str_is_int(s) && i64::MIN <= str_int_val(s) <= i64::MAX
}

/// How the flag group decides: an explicit mode wins; `smart` tries the
/// numeric prefix first and falls back to the literal name; no flag at all
/// means by name. Only the explicit numeric modes can fail, on a malformed
/// integer.
pub open spec fn spec_focus_by(f: FocusArgsView) -> Result<FocusByView, SwayWsError> {
    if f.name {
        Ok(FocusByView::Name(f.workspace))
    } else if f.num {
        if spec_fits_i32(f.workspace) {
            Ok(FocusByView::Num(str_int_val(f.workspace)))
        } else {
            Err(SwayWsError::Parse)
        }
    } else if f.id {
        if spec_fits_i64(f.workspace) {
            Ok(FocusByView::Id(str_int_val(f.workspace)))
        } else {
            Err(SwayWsError::Parse)
        }
    } else if f.smart {
        if spec_fits_i32(f.workspace) {
            Ok(FocusByView::Num(str_int_val(f.workspace)))
        } else {
            Ok(FocusByView::Name(f.workspace))
        }
    } else {
        Ok(FocusByView::Name(f.workspace))
    }
}

impl FocusBy {
    /// Decides a flag-group focus request into one tagged variant.
    pub fn try_from(value: Focus) -> (r: Result<FocusBy, SwayWsError>)
        ensures
            r matches Ok(fb) ==> spec_focus_by(value@) == Ok::<FocusByView, SwayWsError>(fb@),
            r matches Err(e) ==> spec_focus_by(value@) == Err::<FocusByView, SwayWsError>(e),
    {
        if value.name {
            Ok(FocusBy::Name(value.workspace))
        } else if value.num {
            match parse_i32(value.workspace.as_str()) {
                Ok(n) => Ok(FocusBy::Num(n)),
                Err(e) => Err(e),
            }
        } else if value.id {
            match parse_i64(value.workspace.as_str()) {
                Ok(n) => Ok(FocusBy::Id(n)),
                Err(e) => Err(e),
            }
        } else if value.smart {
            match parse_i32(value.workspace.as_str()) {
                Ok(n) => Ok(FocusBy::Num(n)),
                Err(_) => Ok(FocusBy::Name(value.workspace)),
            }
        } else {
            Ok(FocusBy::Name(value.workspace))
        }
    }
}

/// What the one focus command for a decided request says: by name and by
/// number it is direct; by id it goes through the live list and fails with
/// `NoWorkspaceWithId` when the id is not there.
pub open spec fn spec_plan_focus(fb: FocusByView, workspaces: Seq<WorkspaceView>) -> Result<
    Seq<char>,
    SwayWsError,
> {
    match fb {
        FocusByView::Name(n) => Ok(spec_render(CommandView::Focus { name: n })),
        FocusByView::Num(n) => Ok(spec_render(CommandView::FocusNumber { num: n })),
        FocusByView::Id(id) => match spec_name_of_id(workspaces, id) {
            Some(n) => Ok(spec_render(CommandView::Focus { name: n })),
            None => Err(SwayWsError::NoWorkspaceWithId { id: id as i64 }),
        },
    }
}

/// Resolves a decided focus request against the live workspace list into
/// the single command text that performs it.
pub fn plan_focus(focus_by: &FocusBy, workspaces: &Vec<Workspace>) -> (r: Result<
    String,
    SwayWsError,
>)
    ensures
        r matches Ok(t) ==> spec_plan_focus(focus_by@, workspaces.deep_view()) == Ok::<
            Seq<char>,
            SwayWsError,
        >(t@),
        r matches Err(e) ==> spec_plan_focus(focus_by@, workspaces.deep_view()) == Err::<
            Seq<char>,
            SwayWsError,
        >(e),
{
    match focus_by {
        FocusBy::Name(n) => Ok(focus_workspace_by_name(n.as_str())),
        FocusBy::Num(n) => Ok(focus_workspace_by_num(*n)),
        FocusBy::Id(id) => focus_workspace_by_id(workspaces, *id),
    }
}

} // verus!
