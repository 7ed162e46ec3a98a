use vstd::prelude::*;

use crate::command::CommandView;
use crate::snapshot::{spec_restore_plan, SnapshotView};
use crate::swap::{spec_swap_plan, swap_tmp_name};

verus! {

/// The placement a workspace name currently resolves to: which content
/// answers to the name (an opaque identity) and which output hosts it.
/// A compositor state, for placement purposes, is the map from live names
/// to placements.
pub ghost struct Placement {
    pub content: int,
    pub output: Seq<char>,
}

/// How one command changes placements. A rename moves the binding — the
/// compositor refuses a rename whose source is missing or whose target is
/// taken, leaving the state as it was. A move re-pins an existing name to
/// an output; a move that addresses an absent name makes the compositor
/// create a fresh, empty workspace, which carries no content this model
/// follows. Focus commands and output creation assign no workspace, so
/// they leave placements alone; unplugging an output does evict its
/// workspaces and is not modeled here.
pub open spec fn apply_placement(m: Map<Seq<char>, Placement>, c: CommandView) -> Map<
    Seq<char>,
    Placement,
> {
    match c {
        CommandView::Rename { from, to } => {
            if m.contains_key(from) && !m.contains_key(to) && from != to {
                m.remove(from).insert(to, m[from])
            } else {
                m
            }
        },
        CommandView::Move { workspace, output } => {
            if m.contains_key(workspace) {
                m.insert(workspace, Placement { content: m[workspace].content, output })
            } else {
                m
            }
        },
        _ => m,
    }
}

/// The placements after a whole plan runs, first command first.
pub open spec fn apply_placements(m: Map<Seq<char>, Placement>, cmds: Seq<CommandView>) -> Map<
    Seq<char>,
    Placement,
>
    decreases cmds.len(),
{
    if cmds.len() == 0 {
        m
    } else {
        apply_placements(apply_placement(m, cmds[0]), cmds.skip(1))
    }
}

/// What one swap does to placements, when both names exist and the
/// reserved temporary name is free: the two names trade contents, and each
/// name stays pinned to the output it occupied before — the workspaces
/// moved; the names' places did not.
pub proof fn lemma_swap_exchanges_content(
    m: Map<Seq<char>, Placement>,
    ws_l: Seq<char>,
    ws_r: Seq<char>,
)
    requires
        m.contains_key(ws_l),
        m.contains_key(ws_r),
        ws_l != ws_r,
        ws_l != swap_tmp_name(),
        ws_r != swap_tmp_name(),
        !m.contains_key(swap_tmp_name()),
    ensures
        apply_placements(m, spec_swap_plan(Some(m[ws_l].output), Some(m[ws_r].output), ws_l, ws_r))
            =~= m.insert(
            ws_l,
            Placement { content: m[ws_r].content, output: m[ws_l].output },
        ).insert(ws_r, Placement { content: m[ws_l].content, output: m[ws_r].output }),
{
    let tmp = swap_tmp_name();
    let o_l = m[ws_l].output;
    let o_r = m[ws_r].output;
    let plan = spec_swap_plan(Some(o_l), Some(o_r), ws_l, ws_r);
    let c1 = CommandView::Rename { from: ws_l, to: tmp };
    let c2 = CommandView::Rename { from: ws_r, to: ws_l };
    let c3 = CommandView::Rename { from: tmp, to: ws_r };
    let c4 = CommandView::Move { workspace: ws_l, output: o_l };
    let c5 = CommandView::Move { workspace: ws_r, output: o_r };
    assert(plan =~= seq![c1, c2, c3, c4, c5]);

    let m1 = apply_placement(m, c1);
    let m2 = apply_placement(m1, c2);
    let m3 = apply_placement(m2, c3);
    let m4 = apply_placement(m3, c4);
    let m5 = apply_placement(m4, c5);

    assert(m1 =~= m.remove(ws_l).insert(tmp, m[ws_l]));
    assert(m2 =~= m1.remove(ws_r).insert(ws_l, m[ws_r]));
    assert(m3 =~= m2.remove(tmp).insert(ws_r, m[ws_l]));
    assert(m4 =~= m3.insert(ws_l, Placement { content: m[ws_r].content, output: o_l }));
    assert(m5 =~= m4.insert(ws_r, Placement { content: m[ws_l].content, output: o_r }));

    reveal_with_fuel(apply_placements, 7);
    assert(plan.skip(1) =~= seq![c2, c3, c4, c5]);
    assert(plan.skip(1).skip(1) =~= seq![c3, c4, c5]);
    assert(plan.skip(1).skip(1).skip(1) =~= seq![c4, c5]);
    assert(plan.skip(1).skip(1).skip(1).skip(1) =~= seq![c5]);
    assert(plan.skip(1).skip(1).skip(1).skip(1).skip(1) =~= Seq::<CommandView>::empty());
    assert(apply_placements(m, plan) == m5);

    assert(m5 =~= m.insert(
        ws_l,
        Placement { content: m[ws_r].content, output: m[ws_l].output },
    ).insert(ws_r, Placement { content: m[ws_l].content, output: m[ws_r].output }));
}

/// Swapping twice is a no-op: the second swap, planned against the state
/// the first one left, returns every name to the content and the output it
/// had before the first — the swap is its own inverse.
pub proof fn lemma_swap_self_inverse(
    m: Map<Seq<char>, Placement>,
    ws_l: Seq<char>,
    ws_r: Seq<char>,
)
    requires
        m.contains_key(ws_l),
        m.contains_key(ws_r),
        ws_l != ws_r,
        ws_l != swap_tmp_name(),
        ws_r != swap_tmp_name(),
        !m.contains_key(swap_tmp_name()),
    ensures
        ({
            let m1 = apply_placements(
                m,
                spec_swap_plan(Some(m[ws_l].output), Some(m[ws_r].output), ws_l, ws_r),
            );
            let m2 = apply_placements(
                m1,
                spec_swap_plan(Some(m1[ws_l].output), Some(m1[ws_r].output), ws_l, ws_r),
            );
            m2 =~= m
        }),
{
    let m1 = apply_placements(
        m,
        spec_swap_plan(Some(m[ws_l].output), Some(m[ws_r].output), ws_l, ws_r),
    );
    lemma_swap_exchanges_content(m, ws_l, ws_r);
    assert(m1[ws_l] == Placement { content: m[ws_r].content, output: m[ws_l].output });
    assert(m1[ws_r] == Placement { content: m[ws_l].content, output: m[ws_r].output });
    assert(m1.dom() =~= m.dom());
    lemma_swap_exchanges_content(m1, ws_l, ws_r);
    let m2 = apply_placements(
        m1,
        spec_swap_plan(Some(m1[ws_l].output), Some(m1[ws_r].output), ws_l, ws_r),
    );
    assert(m2 =~= m1.insert(
        ws_l,
        Placement { content: m1[ws_r].content, output: m1[ws_l].output },
    ).insert(ws_r, Placement { content: m1[ws_l].content, output: m1[ws_r].output }));
    assert(m2 =~= m);
}

/// What a workspace name shows: the output hosting it, whether it is the
/// one visible workspace on that output, and whether it holds the focus.
/// A compositor state, for restoration purposes, is the map from live
/// names to this record.
pub ghost struct Visibility {
    pub output: Seq<char>,
    pub visible: bool,
    pub focused: bool,
}

/// How focusing a name changes what is shown: the named workspace becomes
/// focused and visible; every other workspace loses the focus, and loses
/// visibility exactly when it shares the named workspace's output. Outputs
/// themselves do not change. Focusing a name that does not exist would
/// create a workspace; the model follows only focuses of existing names,
/// which is all a restore pass issues when nothing it names was deleted.
pub open spec fn apply_focus(m: Map<Seq<char>, Visibility>, n: Seq<char>) -> Map<
    Seq<char>,
    Visibility,
> {
    if m.contains_key(n) {
        Map::new(
            |k: Seq<char>| m.contains_key(k),
            |k: Seq<char>|
                Visibility {
                    output: m[k].output,
                    visible: k == n || (m[k].visible && m[k].output != m[n].output),
                    focused: k == n,
                },
        )
    } else {
        m
    }
}

/// The state after focusing a list of names in order.
pub open spec fn apply_focus_names(m: Map<Seq<char>, Visibility>, names: Seq<Seq<char>>) -> Map<
    Seq<char>,
    Visibility,
>
    decreases names.len(),
{
    if names.len() == 0 {
        m
    } else {
        apply_focus_names(apply_focus(m, names[0]), names.skip(1))
    }
}

/// The state after a plan runs, following its focus commands. A restore
/// plan consists of focus commands only; the other command kinds move or
/// make workspaces and are covered by the placement model above, not by
/// this one.
pub open spec fn apply_focus_cmds(m: Map<Seq<char>, Visibility>, cmds: Seq<CommandView>) -> Map<
    Seq<char>,
    Visibility,
>
    decreases cmds.len(),
{
    if cmds.len() == 0 {
        m
    } else {
        let m1 = match cmds[0] {
            CommandView::Focus { name } => apply_focus(m, name),
            _ => m,
        };
        apply_focus_cmds(m1, cmds.skip(1))
    }
}

/// No name in the list sits on `w`'s output.
pub open spec fn no_output_match(
    m: Map<Seq<char>, Visibility>,
    names: Seq<Seq<char>>,
    w: Seq<char>,
) -> bool {
    forall|i: int| 0 <= i < names.len() ==> m[#[trigger] names[i]].output != m[w].output
}

/// Every name in the list is a live workspace.
pub open spec fn all_live(m: Map<Seq<char>, Visibility>, names: Seq<Seq<char>>) -> bool {
    forall|i: int| 0 <= i < names.len() ==> m.contains_key(#[trigger] names[i])
}

/// The names in the list sit on pairwise distinct outputs.
pub open spec fn outputs_distinct(m: Map<Seq<char>, Visibility>, names: Seq<Seq<char>>) -> bool {
    forall|i: int, j: int|
        0 <= i < j < names.len() ==> m[#[trigger] names[i]].output != m[#[trigger] names[j]].output
}

proof fn lemma_apply_focus_names_append(
    m: Map<Seq<char>, Visibility>,
    a: Seq<Seq<char>>,
    b: Seq<Seq<char>>,
)
    ensures
        apply_focus_names(m, a + b) == apply_focus_names(apply_focus_names(m, a), b),
    decreases a.len(),
{
    if a.len() == 0 {
        assert(a + b =~= b);
    } else {
        assert((a + b)[0] == a[0]);
        assert((a + b).skip(1) =~= a.skip(1) + b);
        lemma_apply_focus_names_append(apply_focus(m, a[0]), a.skip(1), b);
    }
}

proof fn lemma_focus_cmds_are_names(m: Map<Seq<char>, Visibility>, names: Seq<Seq<char>>)
    ensures
        apply_focus_cmds(
            m,
            names.map_values(|n: Seq<char>| CommandView::Focus { name: n }),
        ) == apply_focus_names(m, names),
    decreases names.len(),
{
    let cmds = names.map_values(|n: Seq<char>| CommandView::Focus { name: n });
    if names.len() == 0 {
    } else {
        assert(cmds[0] == CommandView::Focus { name: names[0] });
        assert(cmds.skip(1) =~= names.skip(1).map_values(
            |n: Seq<char>| CommandView::Focus { name: n },
        ));
        lemma_focus_cmds_are_names(apply_focus(m, names[0]), names.skip(1));
    }
}

/// Running a focus pass over names that all exist and sit on pairwise
/// distinct outputs: no output changes; exactly the focused names, plus
/// whatever was visible on outputs the pass never touched, end up visible;
/// and the focus lands on the last name (or stays put when the list is
/// empty).
proof fn lemma_focus_run(m: Map<Seq<char>, Visibility>, names: Seq<Seq<char>>)
    requires
        all_live(m, names),
        outputs_distinct(m, names),
    ensures
        apply_focus_names(m, names).dom() == m.dom(),
        forall|w: Seq<char>| #[trigger]
            m.contains_key(w) ==> apply_focus_names(m, names)[w].output == m[w].output,
        forall|w: Seq<char>| #[trigger]
            m.contains_key(w) ==> (apply_focus_names(m, names)[w].visible <==> (names.contains(w)
                || (m[w].visible && no_output_match(m, names, w)))),
        forall|w: Seq<char>| #[trigger]
            m.contains_key(w) ==> (apply_focus_names(m, names)[w].focused <==> (if names.len()
                == 0 {
                m[w].focused
            } else {
                w == names.last()
            })),
    decreases names.len(),
{
    if names.len() == 0 {
        assert(forall|w: Seq<char>| !names.contains(w));
    } else {
        let n0 = names[0];
        let rest = names.skip(1);
        assert(m.contains_key(n0));
        let m1 = apply_focus(m, n0);
        assert(m1.dom() =~= m.dom());
        assert(forall|k: Seq<char>| #[trigger]
            m.contains_key(k) ==> m1[k] == Visibility {
                output: m[k].output,
                visible: k == n0 || (m[k].visible && m[k].output != m[n0].output),
                focused: k == n0,
            });
        assert(forall|i: int| 0 <= i < rest.len() ==> rest[i] == names[i + 1]);
        assert(all_live(m1, rest));
        assert(outputs_distinct(m1, rest));
        lemma_focus_run(m1, rest);
        let mr = apply_focus_names(m1, rest);
        assert(apply_focus_names(m, names) == mr);
        // The list holds no duplicate names: two occurrences of one name
        // would sit on one output, against distinctness.
        assert forall|i: int| 0 <= i < rest.len() implies rest[i] != n0 by {
            if rest[i] == n0 {
                assert(m[names[0]].output == m[names[i + 1]].output);
            }
        }
        assert forall|w: Seq<char>| #[trigger]
            m.contains_key(w) implies (mr[w].visible <==> (names.contains(w) || (m[w].visible
            && no_output_match(m, names, w)))) by {
            assert(mr[w].visible <==> (rest.contains(w) || (m1[w].visible && no_output_match(
                m1,
                rest,
                w,
            ))));
            if w == n0 {
                assert(!rest.contains(w));
                assert(m1[w].visible);
                assert(no_output_match(m1, rest, w));
                assert(mr[w].visible);
                assert(names.contains(w)) by {
                    assert(names[0] == w);
                }
            } else {
                assert(m1[w].visible <==> (m[w].visible && m[w].output != m[n0].output));
                assert(no_output_match(m1, rest, w) <==> (forall|i: int|
                    0 <= i < rest.len() ==> m[#[trigger] rest[i]].output != m[w].output));
                assert(rest.contains(w) <==> names.contains(w)) by {
                    if rest.contains(w) {
                        let i = choose|i: int| 0 <= i < rest.len() && rest[i] == w;
                        assert(names[i + 1] == w);
                    }
                    if names.contains(w) {
                        let i = choose|i: int| 0 <= i < names.len() && names[i] == w;
                        assert(i != 0);
                        assert(rest[i - 1] == w);
                    }
                }
                assert((m[w].visible && no_output_match(m, names, w)) <==> (m[w].visible && m[
                    w
                ].output != m[n0].output && no_output_match(m, rest, w))) by {
                    if no_output_match(m, rest, w) && m[w].output != m[n0].output {
                        assert forall|i: int|
                            0 <= i < names.len() implies m[#[trigger] names[i]].output != m[
                            w
                        ].output by {
                            if i > 0 {
                                assert(rest[i - 1] == names[i]);
                            }
                        }
                    }
                    if no_output_match(m, names, w) {
                        assert forall|i: int|
                            0 <= i < rest.len() implies m[#[trigger] rest[i]].output != m[
                            w
                        ].output by {
                            assert(rest[i] == names[i + 1]);
                        }
                    }
                }
                assert(no_output_match(m, rest, w) <==> no_output_match(m1, rest, w));
            }
        }
        assert forall|w: Seq<char>| #[trigger]
            m.contains_key(w) implies (mr[w].focused <==> (w == names.last())) by {
            if rest.len() == 0 {
                assert(mr[w].focused <==> m1[w].focused);
                assert(names.last() == n0);
            } else {
                assert(rest.last() == names.last());
            }
        }
    }
}

/// The snapshot round trip. After an invocation's mutations, the restore
/// plan — focus every previously visible name in order, then the
/// previously focused name — brings the view back: exactly the snapshot's
/// names are visible, the snapshot's focused name holds the focus, and no
/// workspace changed output. This holds provided nothing the snapshot
/// names was deleted, the named workspaces now sit on pairwise distinct
/// outputs, and nothing is visible on an output the snapshot does not
/// cover (otherwise that survivor would stay visible alongside the
/// restored set).
pub proof fn lemma_restore_round_trip(m: Map<Seq<char>, Visibility>, snap: SnapshotView)
    requires
        snap.focused is Some,
        snap.visible.contains(snap.focused->0),
        all_live(m, snap.visible),
        outputs_distinct(m, snap.visible),
        forall|w: Seq<char>| #[trigger]
            m.contains_key(w) && m[w].visible ==> exists|i: int|
                0 <= i < snap.visible.len() && m[#[trigger] snap.visible[i]].output == m[w].output,
    ensures
        ({
            let mr = apply_focus_cmds(m, spec_restore_plan(snap));
            &&& mr.dom() == m.dom()
            &&& forall|w: Seq<char>| #[trigger]
                m.contains_key(w) ==> (mr[w].visible <==> snap.visible.contains(w))
            &&& forall|w: Seq<char>| #[trigger]
                m.contains_key(w) ==> (mr[w].focused <==> w == snap.focused->0)
            &&& forall|w: Seq<char>| #[trigger] m.contains_key(w) ==> mr[w].output == m[w].output
        }),
{
    let f = snap.focused->0;
    let names = snap.visible + seq![f];
    let plan = spec_restore_plan(snap);
    assert(plan =~= names.map_values(|n: Seq<char>| CommandView::Focus { name: n }));
    lemma_focus_cmds_are_names(m, names);
    lemma_apply_focus_names_append(m, snap.visible, seq![f]);
    lemma_focus_run(m, snap.visible);
    let mv = apply_focus_names(m, snap.visible);
    let i0 = choose|i: int| 0 <= i < snap.visible.len() && snap.visible[i] == f;
    assert(m.contains_key(f));
    assert(seq![f][0] == f);
    assert(seq![f].skip(1) =~= Seq::<Seq<char>>::empty());
    assert(mv.contains_key(f));
    let mr = apply_focus(mv, f);
    assert(apply_focus_names(mr, Seq::<Seq<char>>::empty()) == mr);
    assert(apply_focus_names(mv, seq![f]) == mr);
    assert(apply_focus_cmds(m, plan) == mr);
    assert(mv[f].visible) by {
        assert(snap.visible.contains(f));
    }
    assert(mr.dom() =~= m.dom());
    assert forall|w: Seq<char>| #[trigger]
        m.contains_key(w) implies (mr[w].visible <==> snap.visible.contains(w)) by {
        assert(mr[w].visible <==> (w == f || (mv[w].visible && mv[w].output != mv[f].output)));
        if w == f {
            assert(snap.visible.contains(w));
        } else {
            if snap.visible.contains(w) {
                let iw = choose|i: int| 0 <= i < snap.visible.len() && snap.visible[i] == w;
                assert(mv[w].visible);
                assert(m[snap.visible[iw]].output != m[snap.visible[i0]].output) by {
                    assert(iw != i0);
                }
                assert(mv[w].output == m[w].output && mv[f].output == m[f].output);
                assert(mr[w].visible);
            } else {
                assert(!mv[w].visible) by {
                    if m[w].visible {
                        let i = choose|i: int|
                            0 <= i < snap.visible.len() && m[#[trigger] snap.visible[i]].output
                                == m[w].output;
                        assert(!no_output_match(m, snap.visible, w));
                    }
                }
                assert(!mr[w].visible);
            }
        }
    }
}

} // verus!
