use vstd::prelude::*;

use crate::command::{Command, CommandView};
use crate::model::Output;
use crate::strutil::{spec_ends_with, spec_starts_with, str_ends_with, str_starts_with};

verus! {

/// The reserved name prefix that marks an output as virtual (headless).
pub open spec fn headless_prefix() -> Seq<char> {
    "HEADLESS-"@
}

/// A name names a virtual output exactly when it carries the reserved
/// prefix.
pub open spec fn spec_is_virtual_name(name: Seq<char>) -> bool {
    spec_starts_with(name, headless_prefix())
}

impl Output {
    /// Whether this output is virtual, decided by the reserved name prefix.
    pub fn is_virtual(&self) -> (r: bool)
        ensures
            r == spec_is_virtual_name(self@),
    {
        str_starts_with(self.name.as_str(), "HEADLESS-")
    }
}

/// A requested suffix is satisfied when some live virtual output's name
/// ends with it.
pub open spec fn spec_suffix_satisfied(outputs: Seq<Seq<char>>, suffix: Seq<char>) -> bool {
    exists|i: int|
        0 <= i < outputs.len() && spec_is_virtual_name(outputs[i]) && spec_ends_with(
            outputs[i],
            suffix,
        )
}

/// Whether some live virtual output's name ends with `suffix`.
pub fn have_output_with_suffix(suffix: &str, outputs: &Vec<Output>) -> (r: bool)
    ensures
        r == spec_suffix_satisfied(outputs.deep_view(), suffix@),
{
    let ghost all = outputs.deep_view();
    let mut i: usize = 0;
    while i < outputs.len()
        invariant
            0 <= i <= outputs.len(),
            all == outputs.deep_view(),
            all.len() == outputs.len(),
            forall|j: int|
                0 <= j < i ==> !(spec_is_virtual_name(all[j]) && spec_ends_with(all[j], suffix@)),
        decreases outputs.len() - i,
    {
        proof {
            assert(all[i as int] == outputs@[i as int].deep_view());
        }
        if outputs[i].is_virtual() && str_ends_with(outputs[i].name.as_str(), suffix) {
            proof {
                assert(spec_suffix_satisfied(all, suffix@)) by {
                    assert(spec_is_virtual_name(all[i as int]) && spec_ends_with(
                        all[i as int],
                        suffix@,
                    ));
                }
            }
            return true;
        }
        i = i + 1;
    }
    false
}

/// The suffixes still wanting a virtual output, in request order.
pub open spec fn spec_missing_suffixes(suffixes: Seq<Seq<char>>, outputs: Seq<Seq<char>>) -> Seq<
    Seq<char>,
>
    decreases suffixes.len(),
{
    if suffixes.len() == 0 {
        Seq::empty()
    } else {
        spec_missing_suffixes(suffixes.drop_last(), outputs) + (if !spec_suffix_satisfied(
            outputs,
            suffixes.last(),
        ) {
            seq![suffixes.last()]
        } else {
            Seq::empty()
        })
    }
}

/// Drops from the requested suffixes every one an existing virtual output
/// already satisfies; what is left is what provisioning still has to make.
pub fn missing_suffixes(suffixes: &Vec<String>, outputs: &Vec<Output>) -> (r: Vec<String>)
    ensures
        r.deep_view() == spec_missing_suffixes(suffixes.deep_view(), outputs.deep_view()),
{
    let ghost want = suffixes.deep_view();
    let ghost outs = outputs.deep_view();
    let mut left: Vec<String> = Vec::new();
    proof {
        assert(want.subrange(0, 0) =~= Seq::<Seq<char>>::empty());
        assert(left.deep_view() =~= spec_missing_suffixes(want.subrange(0, 0), outs));
    }
    let mut i: usize = 0;
    while i < suffixes.len()
        invariant
            0 <= i <= suffixes.len(),
            want == suffixes.deep_view(),
            outs == outputs.deep_view(),
            want.len() == suffixes.len(),
            left.deep_view() == spec_missing_suffixes(want.subrange(0, i as int), outs),
        decreases suffixes.len() - i,
    {
        let ghost pre = want.subrange(0, i as int);
        let ghost post = want.subrange(0, i as int + 1);
        proof {
            assert(post.drop_last() =~= pre);
            assert(post.last() == want[i as int]);
            assert(want[i as int] == suffixes@[i as int]@);
        }
        if !have_output_with_suffix(suffixes[i].as_str(), outputs) {
            let ghost before = left.deep_view();
            left.push(suffixes[i].clone());
            proof {
                assert(left.deep_view() =~= before.push(want[i as int]));
                assert(left.deep_view() =~= spec_missing_suffixes(post, outs));
            }
        } else {
            proof {
                assert(left.deep_view() =~= spec_missing_suffixes(post, outs));
            }
        }
        i = i + 1;
    }
    proof {
        assert(want.subrange(0, want.len() as int) =~= want);
    }
    left
}

/// The most-recently-listed virtual output, if any exists.
pub open spec fn spec_last_virtual(outputs: Seq<Seq<char>>) -> Option<Seq<char>>
    decreases outputs.len(),
{
    if outputs.len() == 0 {
        None
    } else if spec_is_virtual_name(outputs.last()) {
        Some(outputs.last())
    } else {
        spec_last_virtual(outputs.drop_last())
    }
}

/// One decision of the provisioning convergence loop.
#[derive(Debug, Clone, PartialEq, Eq)]
pub enum ProvisionStep {
    /// A virtual output with the wanted suffix exists; nothing to do.
    Satisfied,
    /// Ask the compositor for one more headless output.
    Create,
    /// Recycle first: unplug the named virtual output, then create. Used
    /// after a creation attempt left the suffix unsatisfied, since the
    /// compositor picks synthetic names this layer cannot choose.
    RecycleThenCreate { unplug: String },
}

/// Decides the next action for one suffix: done when satisfied; plain
/// creation on the first round; on a retry, recycle the most recent
/// virtual output before creating again — or create outright when no
/// virtual output exists to recycle.
pub fn provision_step(suffix: &str, outputs: &Vec<Output>, first_round: bool) -> (r: ProvisionStep)
    ensures
        r is Satisfied <==> spec_suffix_satisfied(outputs.deep_view(), suffix@),
        !spec_suffix_satisfied(outputs.deep_view(), suffix@) && first_round ==> r is Create,
        !spec_suffix_satisfied(outputs.deep_view(), suffix@) && !first_round ==> match
            spec_last_virtual(outputs.deep_view()) {
            Some(n) => r matches ProvisionStep::RecycleThenCreate { unplug } && unplug@ == n,
            None => r is Create,
        },
{
    if have_output_with_suffix(suffix, outputs) {
        return ProvisionStep::Satisfied;
    }
    if first_round {
        return ProvisionStep::Create;
    }
    let ghost all = outputs.deep_view();
    proof {
        assert(all.subrange(0, all.len() as int) =~= all);
    }
    let mut i: usize = outputs.len();
    while i > 0
        invariant
            0 <= i <= outputs.len(),
            all == outputs.deep_view(),
            all.len() == outputs.len(),
            !first_round,
            !spec_suffix_satisfied(all, suffix@),
            spec_last_virtual(all) == spec_last_virtual(all.subrange(0, i as int)),
        decreases i,
    {
        i = i - 1;
        let ghost pre = all.subrange(0, i as int + 1);
        proof {
            assert(pre.last() == all[i as int]);
            assert(all[i as int] == outputs@[i as int].deep_view());
            assert(pre.drop_last() =~= all.subrange(0, i as int));
        }
        if outputs[i].is_virtual() {
            let r = ProvisionStep::RecycleThenCreate { unplug: outputs[i].name.clone() };
            proof {
                assert(spec_last_virtual(pre) == Some(all[i as int]));
            }
            return r;
        }
        proof {
            assert(spec_last_virtual(pre) == spec_last_virtual(all.subrange(0, i as int)));
        }
    }
    proof {
        assert(all.subrange(0, 0).len() == 0);
        assert(spec_last_virtual(all) is None);
    }
    ProvisionStep::Create
}

/// What retiring everything means: one unplug per virtual output, in list
/// order; real outputs are untouched.
pub open spec fn spec_retire_all(outputs: Seq<Seq<char>>) -> Seq<CommandView>
    decreases outputs.len(),
{
    if outputs.len() == 0 {
        Seq::empty()
    } else {
        spec_retire_all(outputs.drop_last()) + (if spec_is_virtual_name(outputs.last()) {
            seq![CommandView::Unplug { output: outputs.last() }]
        } else {
            Seq::empty()
        })
    }
}

/// Plans the bulk teardown: unplug every virtual output unconditionally.
pub fn retire_all_plan(outputs: &Vec<Output>) -> (r: Vec<Command>)
    ensures
        r.deep_view() == spec_retire_all(outputs.deep_view()),
{
    let ghost all = outputs.deep_view();
    let mut cmds: Vec<Command> = Vec::new();
    proof {
        assert(all.subrange(0, 0).len() == 0);
        assert(cmds.deep_view() =~= spec_retire_all(all.subrange(0, 0)));
    }
    let mut i: usize = 0;
    while i < outputs.len()
        invariant
            0 <= i <= outputs.len(),
            all == outputs.deep_view(),
            all.len() == outputs.len(),
            cmds.deep_view() == spec_retire_all(all.subrange(0, i as int)),
        decreases outputs.len() - i,
    {
        let ghost pre = all.subrange(0, i as int);
        let ghost post = all.subrange(0, i as int + 1);
        proof {
            assert(post.drop_last() =~= pre);
            assert(post.last() == all[i as int]);
            assert(all[i as int] == outputs@[i as int].deep_view());
        }
        if outputs[i].is_virtual() {
            let ghost before = cmds.deep_view();
            cmds.push(Command::Unplug { output: outputs[i].name.clone() });
            proof {
                assert(cmds.deep_view() =~= before.push(
                    CommandView::Unplug { output: all[i as int] },
                ));
                assert(cmds.deep_view() =~= spec_retire_all(post));
            }
        } else {
            proof {
                assert(cmds.deep_view() =~= spec_retire_all(post));
            }
        }
        i = i + 1;
    }
    proof {
        assert(all.subrange(0, all.len() as int) =~= all);
    }
    cmds
}

/// When every requested suffix is already satisfied, provisioning has
/// nothing left to make: the working set empties before any creation
/// command is issued, so `ensure` is a no-op on an already-satisfied
/// compositor.
pub proof fn lemma_ensure_noop(suffixes: Seq<Seq<char>>, outputs: Seq<Seq<char>>)
    requires
        forall|i: int| 0 <= i < suffixes.len() ==> spec_suffix_satisfied(outputs, suffixes[i]),
    ensures
        spec_missing_suffixes(suffixes, outputs).len() == 0,
    decreases suffixes.len(),
{
    if suffixes.len() > 0 {
        assert(forall|i: int|
            0 <= i < suffixes.len() - 1 ==> suffixes.drop_last()[i] == suffixes[i]);
        lemma_ensure_noop(suffixes.drop_last(), outputs);
        assert(spec_suffix_satisfied(outputs, suffixes.last()));
    }
}

/// Once a creation lands an output whose name carries the reserved prefix
/// and ends with the wanted suffix, the next check sees the suffix
/// satisfied: the convergence loop stops asking for it.
pub proof fn lemma_creation_converges(outputs: Seq<Seq<char>>, created: Seq<char>, suffix: Seq<char>)
    requires
        spec_is_virtual_name(created),
        spec_ends_with(created, suffix),
    ensures
        spec_suffix_satisfied(outputs.push(created), suffix),
{
    let all = outputs.push(created);
    assert(all[outputs.len() as int] == created);
}

} // verus!
