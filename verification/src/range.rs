use vstd::prelude::*;

use crate::error::SwayWsError;
use crate::model::{Workspace, WorkspaceView};
use crate::num::{i32_to_string, int_to_dec_str, parse_i32, str_int_val, str_is_int};

verus! {

/// A workspace-range request: in numeric mode `start` and `end` are decimal
/// integers and the range is every integer between them, whether or not a
/// workspace by that name exists yet; otherwise they are literal workspace
/// names bounding a scan over the live list in compositor order.
#[derive(Debug, Clone, PartialEq, Eq)]
pub struct RangeSpec {
    pub start: String,
    pub end: String,
    pub numeric: bool,
}

/// The mathematical shadow of a [`RangeSpec`].
pub ghost struct RangeSpecView {
    pub start: Seq<char>,
    pub end: Seq<char>,
    pub numeric: bool,
}

impl View for RangeSpec {
    type V = RangeSpecView;

    open spec fn view(&self) -> RangeSpecView {
        RangeSpecView { start: self.start@, end: self.end@, numeric: self.numeric }
    }
}

/// The names the live workspace list carries, in order.
pub open spec fn spec_workspace_names(workspaces: Seq<WorkspaceView>) -> Seq<Seq<char>> {
    workspaces.map_values(|w: WorkspaceView| w.name)
}

/// The numeric expansion: every integer from `a` to `b` inclusive, as
/// decimal strings; empty when `a > b`.
pub open spec fn spec_numeric_names(a: int, b: int) -> Seq<Seq<char>> {
    if a <= b {
        Seq::new((b - a + 1) as nat, |i: int| int_to_dec_str(a + i))
    } else {
        Seq::empty()
    }
}

/// The name scan. Walking the list in the order given: an entry equal to
/// `start` turns collection on, every entry seen while collection is on is
/// taken, and an entry equal to `end` turns collection off after being
/// taken. When `start` never occurs the result is empty; when `end` never
/// occurs after `start`, everything to the end of the list is taken; when
/// `start == end` the one entry both turns collection on and off, so
/// exactly that name is taken.
pub open spec fn spec_scan_names(
    names: Seq<Seq<char>>,
    start: Seq<char>,
    end: Seq<char>,
    filling: bool,
) -> Seq<Seq<char>>
    decreases names.len(),
{
    if names.len() == 0 {
        Seq::empty()
    } else {
        let head = names[0];
        let now = filling || head == start;
        let taken: Seq<Seq<char>> = if now {
            seq![head]
        } else {
            Seq::empty()
        };
        let next = if head == end {
            false
        } else {
            now
        };
        taken + spec_scan_names(names.skip(1), start, end, next)
    }
}

/// What resolving a range yields: the numeric expansion when `numeric`, the
/// name scan otherwise. Numeric mode fails with `Parse` exactly when either
/// bound is not a decimal numeral that fits an `i32`.
pub open spec fn spec_resolve(range: RangeSpecView, workspaces: Seq<WorkspaceView>) -> Result<
    Seq<Seq<char>>,
    SwayWsError,
> {
    if range.numeric {
        if !(str_is_int(range.start) && i32::MIN <= str_int_val(range.start) <= i32::MAX) {
            Err(SwayWsError::Parse)
        } else if !(str_is_int(range.end) && i32::MIN <= str_int_val(range.end) <= i32::MAX) {
            Err(SwayWsError::Parse)
        } else {
            Ok(spec_numeric_names(str_int_val(range.start), str_int_val(range.end)))
        }
    } else {
        Ok(spec_scan_names(spec_workspace_names(workspaces), range.start, range.end, false))
    }
}

/// Expands a range specification into the concrete, ordered workspace
/// names it covers.
pub fn resolve(range: &RangeSpec, workspaces: &Vec<Workspace>) -> (r: Result<
    Vec<String>,
    SwayWsError,
>)
    ensures
        r matches Ok(v) ==> spec_resolve(range@, workspaces.deep_view()) == Ok::<
            Seq<Seq<char>>,
            SwayWsError,
        >(v.deep_view()),
        r matches Err(e) ==> spec_resolve(range@, workspaces.deep_view()) == Err::<
            Seq<Seq<char>>,
            SwayWsError,
        >(e),
{
    if range.numeric {
        let a: i32 = match parse_i32(range.start.as_str()) {
            Ok(a) => a,
            Err(e) => {
                return Err(e);
            },
        };
        let b: i32 = match parse_i32(range.end.as_str()) {
            Ok(b) => b,
            Err(e) => {
                return Err(e);
            },
        };
        let mut names: Vec<String> = Vec::new();
        let mut cur: i64 = a as i64;
        while cur <= b as i64
            invariant
                a as i64 <= cur <= b as i64 + 1 || (a > b && cur == a as i64),
                names.deep_view() =~= Seq::new(
                    (cur - a) as nat,
                    |i: int| int_to_dec_str(a + i),
                ),
            decreases b as i64 + 1 - cur,
        {
            let ghost before = names.deep_view();
            names.push(i32_to_string(cur as i32));
            proof {
                assert(names.deep_view() =~= before.push(int_to_dec_str(cur as int)));
                assert(names.deep_view() =~= Seq::new(
                    (cur + 1 - a) as nat,
                    |i: int| int_to_dec_str(a + i),
                ));
            }
            cur = cur + 1;
        }
        proof {
            assert(names.deep_view() =~= spec_numeric_names(a as int, b as int));
        }
        Ok(names)
    } else {
        let ghost all_names = spec_workspace_names(workspaces.deep_view());
        let mut names: Vec<String> = Vec::new();
        let mut filling: bool = false;
        proof {
            assert(all_names.skip(0) =~= all_names);
            assert(names.deep_view() =~= Seq::<Seq<char>>::empty());
        }
        let mut i: usize = 0;
        while i < workspaces.len()
            invariant
                0 <= i <= workspaces.len(),
                all_names == spec_workspace_names(workspaces.deep_view()),
                all_names.len() == workspaces.len(),
                spec_scan_names(all_names, range@.start, range@.end, false) == names.deep_view()
                    + spec_scan_names(
                    all_names.skip(i as int),
                    range@.start,
                    range@.end,
                    filling,
                ),
            decreases workspaces.len() - i,
        {
            let ghost rest = all_names.skip(i as int);
            proof {
                assert(rest[0] == all_names[i as int]);
                assert(all_names[i as int] == workspaces.deep_view()[i as int].name);
                assert(workspaces.deep_view()[i as int] == workspaces@[i as int].deep_view());
                assert(rest.skip(1) =~= all_names.skip(i as int + 1));
            }
            let ghost before = names.deep_view();
            if workspaces[i].name.eq(&range.start) {
                filling = true;
            }
            if filling {
                names.push(workspaces[i].name.clone());
                proof {
                    assert(names.deep_view() =~= before.push(rest[0]));
                    assert(names.deep_view() =~= before + seq![rest[0]]);
                }
            } else {
                proof {
                    assert(names.deep_view() + Seq::<Seq<char>>::empty() =~= names.deep_view());
                }
            }
            if workspaces[i].name.eq(&range.end) {
                filling = false;
            }
            proof {
                assert(before + (seq![rest[0]] + spec_scan_names(
                    rest.skip(1),
                    range@.start,
                    range@.end,
                    filling,
                )) =~= (before + seq![rest[0]]) + spec_scan_names(
                    rest.skip(1),
                    range@.start,
                    range@.end,
                    filling,
                ));
                assert(before + (Seq::<Seq<char>>::empty() + spec_scan_names(
                    rest.skip(1),
                    range@.start,
                    range@.end,
                    filling,
                )) =~= before + spec_scan_names(
                    rest.skip(1),
                    range@.start,
                    range@.end,
                    filling,
                ));
            }
            i = i + 1;
        }
        proof {
            assert(all_names.skip(i as int).len() == 0);
            assert(names.deep_view() + Seq::<Seq<char>>::empty() =~= names.deep_view());
        }
        Ok(names)
    }
}

} // verus!
