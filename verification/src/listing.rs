use vstd::prelude::*;

use crate::model::{Workspace, WorkspaceView};
use crate::num::{i32_to_string, i64_to_string, int_to_dec_str};

verus! {

/// The text shown for a workspace's numeric prefix: the number, or `-1`
/// for workspaces without one, exactly as the compositor itself reports
/// the absence of a prefix.
pub open spec fn spec_num_text(num: Option<int>) -> Seq<char> {
    match num {
        Some(n) => int_to_dec_str(n),
        None => int_to_dec_str(-1),
    }
}

/// `n` spaces.
pub open spec fn spec_spaces(n: int) -> Seq<char>
    decreases n,
{
    if n <= 0 {
        Seq::empty()
    } else {
        spec_spaces(n - 1) + seq![' ']
    }
}

/// `s` padded on the left with spaces to width `w`; a string already that
/// wide stays as it is.
pub open spec fn spec_pad_left(s: Seq<char>, w: int) -> Seq<char> {
    spec_spaces(w - s.len()) + s
}

/// The longest length among the texts; zero when there are none.
pub open spec fn spec_max_len(texts: Seq<Seq<char>>) -> int
    decreases texts.len(),
{
    if texts.len() == 0 {
        0
    } else {
        let rest = spec_max_len(texts.drop_last());
        if texts.last().len() > rest {
            texts.last().len() as int
        } else {
            rest
        }
    }
}

/// The width a column is padded to: the longest entry, or one for an empty
/// table.
pub open spec fn spec_fill(texts: Seq<Seq<char>>) -> int {
    if texts.len() == 0 {
        1
    } else {
        spec_max_len(texts)
    }
}

/// One table row: the id, numeric prefix and name, each right-aligned to
/// its column, separated by commas.
pub open spec fn spec_row(w: WorkspaceView, fill_id: int, fill_num: int, fill_name: int) -> Seq<
    char,
> {
    spec_pad_left(int_to_dec_str(w.id), fill_id) + ", "@ + spec_pad_left(
        spec_num_text(w.num),
        fill_num,
    ) + ", "@ + spec_pad_left(w.name, fill_name)
}

/// The whole table: one row per workspace in list order, every column as
/// wide as its longest entry.
pub open spec fn spec_workspace_table(wss: Seq<WorkspaceView>) -> Seq<Seq<char>> {
    let fill_id = spec_fill(wss.map_values(|w: WorkspaceView| int_to_dec_str(w.id)));
    let fill_num = spec_fill(wss.map_values(|w: WorkspaceView| spec_num_text(w.num)));
    let fill_name = spec_fill(wss.map_values(|w: WorkspaceView| w.name));
    Seq::new(wss.len(), |i: int| spec_row(wss[i], fill_id, fill_num, fill_name))
}

/// The text for one numeric prefix.
fn num_text(num: &Option<i32>) -> (r: String)
    ensures
        r@ == spec_num_text(match num {
            Some(n) => Some(*n as int),
            None => None::<int>,
        }),
{
    match num {
        Some(n) => i32_to_string(*n),
        None => i32_to_string(-1),
    }
}

/// Pads `s` on the left with spaces to width `w`.
fn pad_left(s: &str, w: usize) -> (r: String)
    ensures
        r@ == spec_pad_left(s@, w as int),
{
    let len = s.unicode_len();
    let mut acc = String::new();
    let mut k: usize = 0;
    let pad: usize = if w > len {
        w - len
    } else {
        0
    };
    proof {
        assert(acc@ =~= spec_spaces(0));
        if w <= len {
            assert(spec_spaces(w - s@.len()) =~= Seq::<char>::empty());
        }
    }
    while k < pad
        invariant
            0 <= k <= pad,
            acc@ == spec_spaces(k as int),
        decreases pad - k,
    {
        acc.append(" ");
        proof {
            reveal_strlit(" ");
            assert(" "@ =~= seq![' ']);
            assert(acc@ =~= spec_spaces(k as int + 1));
        }
        k = k + 1;
    }
    acc.append(s);
    proof {
        assert(acc@ =~= spec_pad_left(s@, w as int));
    }
    acc
}

/// The width of the widest text, or one when there are none.
fn fill_of(texts: &Vec<String>) -> (r: usize)
    ensures
        r as int == spec_fill(texts.deep_view()),
{
    let ghost all = texts.deep_view();
    if texts.len() == 0 {
        return 1;
    }
    let mut m: usize = 0;
    proof {
        assert(all.subrange(0, 0).len() == 0);
    }
    let mut i: usize = 0;
    while i < texts.len()
        invariant
            0 <= i <= texts.len(),
            all == texts.deep_view(),
            all.len() == texts.len(),
            i > 0 ==> m as int == spec_max_len(all.subrange(0, i as int)),
            i == 0 ==> m == 0,
        decreases texts.len() - i,
    {
        let ghost pre = all.subrange(0, i as int);
        let ghost post = all.subrange(0, i as int + 1);
        proof {
            assert(post.drop_last() =~= pre);
            assert(post.last() == all[i as int]);
            assert(all[i as int] == texts@[i as int]@);
            if i == 0 {
                assert(spec_max_len(pre) == 0);
            }
        }
        let l = texts[i].as_str().unicode_len();
        if l > m {
            m = l;
        }
        proof {
            assert(m as int == spec_max_len(post));
        }
        i = i + 1;
    }
    proof {
        assert(all.subrange(0, all.len() as int) =~= all);
    }
    m
}

/// Lays the workspace list out as the rows of the `list` report: id,
/// numeric prefix and name, right-aligned into columns sized by their
/// longest entries.
pub fn workspace_table_lines(workspaces: &Vec<Workspace>) -> (r: Vec<String>)
    ensures
        r.deep_view() == spec_workspace_table(workspaces.deep_view()),
{
    let ghost all = workspaces.deep_view();
    let mut id_texts: Vec<String> = Vec::new();
    let mut num_texts: Vec<String> = Vec::new();
    let mut name_texts: Vec<String> = Vec::new();
    let ghost ids = all.map_values(|w: WorkspaceView| int_to_dec_str(w.id));
    let ghost nums = all.map_values(|w: WorkspaceView| spec_num_text(w.num));
    let ghost names = all.map_values(|w: WorkspaceView| w.name);
    let mut i: usize = 0;
    while i < workspaces.len()
        invariant
            0 <= i <= workspaces.len(),
            all == workspaces.deep_view(),
            all.len() == workspaces.len(),
            ids == all.map_values(|w: WorkspaceView| int_to_dec_str(w.id)),
            nums == all.map_values(|w: WorkspaceView| spec_num_text(w.num)),
            names == all.map_values(|w: WorkspaceView| w.name),
            id_texts.deep_view() =~= ids.subrange(0, i as int),
            num_texts.deep_view() =~= nums.subrange(0, i as int),
            name_texts.deep_view() =~= names.subrange(0, i as int),
        decreases workspaces.len() - i,
    {
        proof {
            assert(all[i as int] == workspaces@[i as int].deep_view());
        }
        let ghost id_before = id_texts.deep_view();
        let ghost num_before = num_texts.deep_view();
        let ghost name_before = name_texts.deep_view();
        id_texts.push(i64_to_string(workspaces[i].id));
        num_texts.push(num_text(&workspaces[i].num));
        name_texts.push(workspaces[i].name.clone());
        proof {
            assert(id_texts.deep_view() =~= id_before.push(ids[i as int]));
            assert(id_texts.deep_view() =~= ids.subrange(0, i as int + 1));
            assert(num_texts.deep_view() =~= num_before.push(nums[i as int]));
            assert(num_texts.deep_view() =~= nums.subrange(0, i as int + 1));
            assert(name_texts.deep_view() =~= name_before.push(names[i as int]));
            assert(name_texts.deep_view() =~= names.subrange(0, i as int + 1));
        }
        i = i + 1;
    }
    proof {
        assert(ids.subrange(0, ids.len() as int) =~= ids);
        assert(nums.subrange(0, nums.len() as int) =~= nums);
        assert(names.subrange(0, names.len() as int) =~= names);
    }
    let fill_id = fill_of(&id_texts);
    let fill_num = fill_of(&num_texts);
    let fill_name = fill_of(&name_texts);
    let mut lines: Vec<String> = Vec::new();
    let mut j: usize = 0;
    while j < workspaces.len()
        invariant
            0 <= j <= workspaces.len(),
            all == workspaces.deep_view(),
            all.len() == workspaces.len(),
            id_texts.deep_view() == ids,
            num_texts.deep_view() == nums,
            name_texts.deep_view() == names,
            ids == all.map_values(|w: WorkspaceView| int_to_dec_str(w.id)),
            nums == all.map_values(|w: WorkspaceView| spec_num_text(w.num)),
            names == all.map_values(|w: WorkspaceView| w.name),
            ids.len() == all.len() && nums.len() == all.len() && names.len() == all.len(),
            id_texts.len() == all.len() && num_texts.len() == all.len() && name_texts.len()
                == all.len(),
            fill_id as int == spec_fill(ids),
            fill_num as int == spec_fill(nums),
            fill_name as int == spec_fill(names),
            lines.deep_view() =~= Seq::new(
                j as nat,
                |k: int| spec_row(all[k], spec_fill(ids), spec_fill(nums), spec_fill(names)),
            ),
        decreases workspaces.len() - j,
    {
        let ghost before = lines.deep_view();
        proof {
            assert(id_texts@[j as int]@ == ids[j as int]);
            assert(num_texts@[j as int]@ == nums[j as int]);
            assert(name_texts@[j as int]@ == names[j as int]);
        }
        let mut row = pad_left(id_texts[j].as_str(), fill_id);
        row.append(", ");
        let num_part = pad_left(num_texts[j].as_str(), fill_num);
        row.append(num_part.as_str());
        row.append(", ");
        let name_part = pad_left(name_texts[j].as_str(), fill_name);
        row.append(name_part.as_str());
        proof {
            assert(row@ =~= spec_row(
                all[j as int],
                spec_fill(ids),
                spec_fill(nums),
                spec_fill(names),
            ));
        }
        lines.push(row);
        proof {
            assert(lines.deep_view() =~= before.push(
                spec_row(all[j as int], spec_fill(ids), spec_fill(nums), spec_fill(names)),
            ));
            assert(lines.deep_view() =~= Seq::new(
                j as nat + 1,
                |k: int| spec_row(all[k], spec_fill(ids), spec_fill(nums), spec_fill(names)),
            ));
        }
        j = j + 1;
    }
    proof {
        assert(lines.deep_view() =~= spec_workspace_table(all));
    }
    lines
}

} // verus!
