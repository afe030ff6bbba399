use vstd::prelude::*;
use crate::damage::RestyleDamage;
use crate::flow::{FlowBase, FlowTree};

verus! {

/// One paint instruction: which flow it paints, and the stacking context and the
/// clipping and scrolling context it is painted in.
#[derive(Clone, Copy, Debug, PartialEq, Eq, Structural)]
pub struct DisplayItem {
    pub flow: usize,
    pub stacking_context_id: u64,
    pub clipping_and_scrolling: u64,
}

/// The state shared by the display-list walk: the current contexts and the list
/// of instructions emitted so far.
pub struct DisplayListBuildState {
    pub current_stacking_context_id: u64,
    pub current_clipping_and_scrolling: u64,
    pub items: Vec<DisplayItem>,
}

/// What the display-list walk reads of a flow: whether its transform is degenerate,
/// its stacking context and its clipping and scrolling context.
pub open spec fn paint_view(bases: Seq<FlowBase>) -> Seq<(bool, u64, u64)> {
    bases.map_values(|b: FlowBase| (b.has_degenerate_transform, b.stacking_context_id, b.clipping_and_scrolling))
}

/// The instructions emitted for the subtree of flow `i`: none if its transform is
/// degenerate, else its own followed by those of its children in order.
pub open spec fn subtree_items(ends: Seq<usize>, pv: Seq<(bool, u64, u64)>, i: int) -> Seq<DisplayItem>
    decreases 2 * (ends[i] - i) + 1,
{
    if 0 <= i < ends.len() && i < ends[i] && i < pv.len() && !pv[i].0 {
        seq![DisplayItem { flow: i as usize, stacking_context_id: pv[i].1, clipping_and_scrolling: pv[i].2 }]
            + kids_items(ends, pv, ends[i] as int, i + 1)
    } else {
        Seq::empty()
    }
}

/// The instructions emitted for the siblings from `k` to the end `stop` of their parent.
pub open spec fn kids_items(ends: Seq<usize>, pv: Seq<(bool, u64, u64)>, stop: int, k: int) -> Seq<DisplayItem>
    decreases 2 * (stop - k) + 2,
{
    if 0 <= k < stop && k < ends.len() && k < ends[k] <= stop {
        subtree_items(ends, pv, k) + kids_items(ends, pv, stop, ends[k] as int)
    } else {
        Seq::empty()
    }
}

/// A flow's base once its display-list entry is regenerated.
pub open spec fn repainted(b: FlowBase) -> FlowBase {
    FlowBase { restyle_damage: RestyleDamage { repaint: false, ..b.restyle_damage }, ..b }
}

/// No flow on the path from `root` down to `j` has a degenerate transform.
pub open spec fn painted(bases: Seq<FlowBase>, ends: Seq<usize>, root: int, j: int) -> bool {
    forall|a: int| root <= a <= j && j < ends[a] ==> !(#[trigger] bases[a]).has_degenerate_transform
}

/// The display-list walk.
pub struct BuildDisplayList {
    pub state: DisplayListBuildState,
}

impl BuildDisplayList {
    /// Emits the paint instructions of the subtree of flow `i` in preorder, skipping
    /// every subtree whose root has a degenerate transform, and leaves the current
    /// contexts as it found them.
    pub fn traverse(&mut self, tree: &mut FlowTree, i: usize)
        requires
            old(tree).wf(),
            i < old(tree).len(),
        ensures
            final(tree).same_shape(old(tree)),
            final(self).state.current_stacking_context_id == old(self).state.current_stacking_context_id,
            final(self).state.current_clipping_and_scrolling == old(self).state.current_clipping_and_scrolling,
            final(self).state.items@ == old(self).state.items@ + subtree_items(
                old(tree).ends@,
                paint_view(old(tree).bases@),
                i as int,
            ),
            forall|j: int|
                0 <= j < old(tree).len() ==> #[trigger] final(tree).bases@[j] == if i <= j < old(tree).ends@[i as int]
                    && painted(old(tree).bases@, old(tree).ends@, i as int, j) {
                    repainted(old(tree).bases@[j])
                } else {
                    old(tree).bases@[j]
                },
        decreases old(tree).ends@[i as int] - i,
    {
        let ghost ends = tree.ends@;
        let ghost b0 = tree.bases@;
        let ghost pv = paint_view(b0);
        let ghost items0 = self.state.items@;
        if tree.bases[i].has_degenerate_transform {
            assert forall|j: int| 0 <= j < b0.len() implies #[trigger] tree.bases@[j] == (if i <= j < ends[i as int]
                && painted(b0, ends, i as int, j) { repainted(b0[j]) } else { b0[j] }) by {
                if i <= j < ends[i as int] {
                    assert(b0[i as int].has_degenerate_transform);
                }
            }
            assert(self.state.items@ == items0 + subtree_items(ends, pv, i as int));
            return;
        }
        let parent_stacking_context_id = self.state.current_stacking_context_id;
        self.state.current_stacking_context_id = tree.bases[i].stacking_context_id;

        let parent_clipping_and_scrolling = self.state.current_clipping_and_scrolling;
        self.state.current_clipping_and_scrolling = tree.bases[i].clipping_and_scrolling;

        self.state.items.push(
            DisplayItem {
                flow: i,
                stacking_context_id: self.state.current_stacking_context_id,
                clipping_and_scrolling: self.state.current_clipping_and_scrolling,
            },
        );
        let mut b = tree.bases[i];
        b.restyle_damage.repaint = false;
        tree.bases.set(i, b);
        assert(paint_view(tree.bases@) =~= pv);

        let stop = tree.ends[i];
        let mut k: usize = i + 1;
        assert(self.state.items@ + kids_items(ends, pv, stop as int, k as int) == items0 + subtree_items(ends, pv, i as int));
        while k < stop
            invariant
                tree.wf(),
                tree.same_shape(old(tree)),
                ends == old(tree).ends@,
                b0 == old(tree).bases@,
                pv == paint_view(b0),
                paint_view(tree.bases@) == pv,
                i < b0.len(),
                stop == ends[i as int],
                i < k <= stop,
                !b0[i as int].has_degenerate_transform,
                self.state.items@ + kids_items(ends, pv, stop as int, k as int) == items0 + subtree_items(ends, pv, i as int),
                forall|a: int| i < a < k ==> #[trigger] ends[a] <= k,
                forall|j: int| 0 <= j < b0.len() && !(i <= j < k) ==> #[trigger] tree.bases@[j] == b0[j],
                forall|j: int|
                    i <= j < k ==> #[trigger] tree.bases@[j] == (if painted(b0, ends, i as int, j) {
                        repainted(b0[j])
                    } else {
                        b0[j]
                    }),
            decreases stop - k,
        {
            let ghost cur = tree.bases@;
            let ghost items1 = self.state.items@;
            let kend = tree.ends[k];
            assert(ends[k as int] <= stop);
            self.traverse(tree, k);
            proof {
                assert(kids_items(ends, pv, stop as int, k as int) == subtree_items(ends, pv, k as int) + kids_items(
                    ends,
                    pv,
                    stop as int,
                    kend as int,
                ));
                assert(self.state.items@ + kids_items(ends, pv, stop as int, kend as int) =~= items1 + kids_items(
                    ends,
                    pv,
                    stop as int,
                    k as int,
                ));
                assert forall|j: int| 0 <= j < cur.len() implies #[trigger] paint_view(tree.bases@)[j] == pv[j] by {
                    assert(paint_view(cur)[j] == pv[j]);
                }
                assert(paint_view(tree.bases@) =~= pv);
                assert forall|j: int| k <= j < kend implies #[trigger] tree.bases@[j] == (if painted(b0, ends, i as int, j) {
                    repainted(b0[j])
                } else {
                    b0[j]
                }) by {
                    assert(cur[j] == b0[j]);
                    if painted(cur, ends, k as int, j) {
                        assert forall|a: int| i <= a <= j && j < ends[a] implies !(#[trigger] b0[a]).has_degenerate_transform by {
                            if i < a && a < k {
                                assert(ends[a] <= k);
                            }
                            if k <= a {
                                assert(cur[a] == b0[a]);
                            }
                        }
                    } else {
                        let a = choose|a: int| k <= a <= j && j < ends[a] && (#[trigger] cur[a]).has_degenerate_transform;
                        assert(cur[a] == b0[a]);
                    }
                }
                assert forall|a: int| i < a < kend implies #[trigger] ends[a] <= kend by {
                    if a >= k {
                        assert(ends[a] <= ends[k as int]);
                    }
                }
            }
            k = kend;
        }
        self.state.current_stacking_context_id = parent_stacking_context_id;
        self.state.current_clipping_and_scrolling = parent_clipping_and_scrolling;
    }
}

} // verus!
