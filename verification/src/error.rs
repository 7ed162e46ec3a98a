use vstd::prelude::*;

use crate::num::{i32_to_string, i64_to_string, int_to_dec_str};

verus! {

/// Everything that can go wrong while planning or running an invocation.
///
/// `SwayIpc` stands for a transport-level failure (the channel itself, or a
/// sub-command the compositor rejected); the planning functions in this
/// library never construct it themselves, but the unverified shell that owns
/// the connection maps channel failures onto it so that one taxonomy covers a
/// whole invocation. `Parse` marks a malformed integer in a numeric range or
/// an id. The remaining variants carry the inputs that could not be matched.
#[derive(Debug, Clone, PartialEq, Eq, Structural)]
pub enum SwayWsError {
    SwayIpc,
    Parse,
    NoOutputMatched,
    NoWorkspaceWithNum { num: i32 },
    NoWorkspaceWithId { id: i64 },
}

/// The human-readable line each error prints.
pub open spec fn spec_message(e: SwayWsError) -> Seq<char> {
    match e {
        SwayWsError::SwayIpc => "Error while communicating with sway"@,
        SwayWsError::Parse => "Cannot parse integer"@,
        SwayWsError::NoOutputMatched => "No output can be matched against the specified parameters"@,
        SwayWsError::NoWorkspaceWithNum { num } => "No workspace with the numerical "@
            + int_to_dec_str(num as int) + " prefix could be found"@,
        SwayWsError::NoWorkspaceWithId { id } => "No workspace with the id "@ + int_to_dec_str(
            id as int,
        ) + " could be found"@,
    }
}

impl SwayWsError {
    /// Renders the error as its human-readable line.
    pub fn message(&self) -> (r: String)
        ensures
            r@ == spec_message(*self),
    {
        match self {
            SwayWsError::SwayIpc => "Error while communicating with sway".to_owned(),
            SwayWsError::Parse => "Cannot parse integer".to_owned(),
            SwayWsError::NoOutputMatched => {
                "No output can be matched against the specified parameters".to_owned()
            },
            SwayWsError::NoWorkspaceWithNum { num } => {
                let mut s = "No workspace with the numerical ".to_owned();
                let digits = i32_to_string(*num);
                s.append(digits.as_str());
                s.append(" prefix could be found");
                proof {
                    assert(s@ =~= spec_message(*self));
                }
                s
            },
            SwayWsError::NoWorkspaceWithId { id } => {
                let mut s = "No workspace with the id ".to_owned();
                let digits = i64_to_string(*id);
                s.append(digits.as_str());
                s.append(" could be found");
                proof {
                    assert(s@ =~= spec_message(*self));
                }
                s
            },
        }
    }
}

} // verus!
