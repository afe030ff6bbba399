use vstd::prelude::*;
use crate::flow::{
    FlowBase, FlowTree, LayoutContext, block_sized, bubbled, inline_sized, kid_bases, lemma_kid_bases_frame,
    repositioned,
};

verus! {

/// Every flow on the path from `root` down to `j` (both included) lets the walk enter.
pub open spec fn preorder_reaches<T: PreorderFlowTraversal>(op: &T, ends: Seq<usize>, bases: Seq<FlowBase>, root: int, j: int) -> bool {
    forall|a: int| root <= a <= j && j < ends[a] ==> op.enters(#[trigger] bases[a])
}

/// The base of flow `j` after a preorder walk from `root` over a tree with `ends` and `bases`.
pub open spec fn preorder_result<T: PreorderFlowTraversal>(op: &T, ends: Seq<usize>, bases: Seq<FlowBase>, root: int, j: int) -> FlowBase {
    if root <= j < ends[root] && preorder_reaches(op, ends, bases, root, j) && op.wants(bases[j]) {
        op.processed(bases[j], kid_bases(ends, bases, j))
    } else {
        bases[j]
    }
}

/// A top-down traversal.
pub trait PreorderFlowTraversal: Sized {
    /// What the operation makes of a flow's base, given its children's bases.
    spec fn processed(&self, own: FlowBase, kids: Seq<FlowBase>) -> FlowBase;

    /// Whether the walk enters a flow and its subtree.
    spec fn enters(&self, own: FlowBase) -> bool;

    /// Whether the operation acts on a flow that the walk entered.
    spec fn wants(&self, own: FlowBase) -> bool;

    /// The operation to perform on flow `i`.
    fn process(&self, tree: &mut FlowTree, i: usize)
        requires
            old(tree).wf(),
            i < old(tree).len(),
        ensures
            final(tree).same_shape(old(tree)),
            final(tree).bases@ == old(tree).bases@.update(
                i as int,
                self.processed(old(tree).bases@[i as int], old(tree).kids(i as int)),
            ),
    ;

    /// Returns true if flow `i` should be processed and false if neither it nor its
    /// descendants should be.
    fn should_process_subtree(&self, tree: &FlowTree, i: usize) -> (r: bool)
        requires
            tree.wf(),
            i < tree.len(),
        ensures
            r == self.enters(tree.bases@[i as int]),
    ;

    /// Returns true if flow `i` must be processed. If this returns false the operation
    /// skips this flow but the walk goes on into its descendants.
    fn should_process(&self, tree: &FlowTree, i: usize) -> (r: bool)
        requires
            tree.wf(),
            i < tree.len(),
        ensures
            r == self.wants(tree.bases@[i as int]),
    ;
}

/// Walks the subtree of flow `i` in preorder on behalf of `op`.
pub fn preorder_traverse<T: PreorderFlowTraversal>(op: &T, tree: &mut FlowTree, i: usize)
    requires
        old(tree).wf(),
        i < old(tree).len(),
    ensures
        final(tree).same_shape(old(tree)),
        forall|j: int|
            0 <= j < old(tree).len() ==> #[trigger] final(tree).bases@[j] == preorder_result(
                op,
                old(tree).ends@,
                old(tree).bases@,
                i as int,
                j,
            ),
    decreases old(tree).ends@[i as int] - i,
{
    let ghost ends = tree.ends@;
    let ghost b0 = tree.bases@;
    if !op.should_process_subtree(tree, i) {
        assert forall|j: int| 0 <= j < b0.len() implies #[trigger] tree.bases@[j] == preorder_result(op, ends, b0, i as int, j) by {
            if i <= j < ends[i as int] {
                assert(!op.enters(b0[i as int]));
            }
        }
        return;
    }
    if op.should_process(tree, i) {
        op.process(tree, i);
    }
    assert(tree.bases@[i as int] == preorder_result(op, ends, b0, i as int, i as int));
    let stop = tree.ends[i];
    let mut k: usize = i + 1;
    while k < stop
        invariant
            tree.wf(),
            tree.ends@ == ends,
            tree.bases@.len() == b0.len(),
            tree.abs_descendants@ == old(tree).abs_descendants@,
            ends == old(tree).ends@,
            b0 == old(tree).bases@,
            i < b0.len(),
            stop == ends[i as int],
            i < k <= stop,
            op.enters(b0[i as int]),
            forall|a: int| i < a < k ==> #[trigger] ends[a] <= k,
            forall|j: int| 0 <= j < b0.len() && !(i <= j < k) ==> #[trigger] tree.bases@[j] == b0[j],
            forall|j: int| i <= j < k ==> #[trigger] tree.bases@[j] == preorder_result(op, ends, b0, i as int, j),
        decreases stop - k,
    {
        let ghost cur = tree.bases@;
        let kend = tree.ends[k];
        preorder_traverse(op, tree, k);
        assert forall|j: int| k <= j < kend implies #[trigger] tree.bases@[j] == preorder_result(op, ends, b0, i as int, j) by {
            assert forall|m: int| j < m < ends[j] implies cur[m] == b0[m] by {
                assert(ends[j] <= kend);
            }
            lemma_kid_bases_frame(ends, cur, b0, j);
            assert(tree.bases@[j] == preorder_result(op, ends, cur, k as int, j));
            if preorder_reaches(op, ends, cur, k as int, j) {
                assert forall|a: int| i <= a <= j && j < ends[a] implies op.enters(#[trigger] b0[a]) by {
                    if i < a && a < k {
                        assert(ends[a] <= k);
                    }
                    if k <= a {
                        assert(cur[a] == b0[a]);
                    }
                }
            } else {
                let a = choose|a: int| k <= a <= j && j < ends[a] && !op.enters(#[trigger] cur[a]);
                assert(cur[a] == b0[a]);
            }
        }
        assert forall|a: int| i < a < kend implies #[trigger] ends[a] <= kend by {
            if a >= k {
                assert(ends[a] <= ends[k as int]);
            }
        }
        k = kend;
    }
}
/// The bases after the walk over absolutely positioned descendants from flow `i`:
/// flow `i` is processed if it is wanted, then each entry of its list is walked in
/// turn. Structural children that are not listed are not visited.
pub open spec fn abs_walk<T: PreorderFlowTraversal>(
    op: &T,
    ends: Seq<usize>,
    abs: Seq<Vec<usize>>,
    bases: Seq<FlowBase>,
    i: int,
) -> Seq<FlowBase>
    decreases ends[i] - i, abs[i]@.len() + 1,
{
    if 0 <= i < ends.len() && i < abs.len() && i < ends[i] {
        let b1 = if op.wants(bases[i]) {
            bases.update(i, op.processed(bases[i], kid_bases(ends, bases, i)))
        } else {
            bases
        };
        abs_list_walk(op, ends, abs, b1, i, abs[i]@.len() as int)
    } else {
        bases
    }
}

/// The bases after walking the first `k` entries of the absolute-descendant list of `i`.
pub open spec fn abs_list_walk<T: PreorderFlowTraversal>(
    op: &T,
    ends: Seq<usize>,
    abs: Seq<Vec<usize>>,
    bases: Seq<FlowBase>,
    i: int,
    k: int,
) -> Seq<FlowBase>
    decreases ends[i] - i, k,
{
    if 0 < k <= abs[i]@.len() && 0 <= i < ends.len() && i < abs.len() {
        let prev = abs_list_walk(op, ends, abs, bases, i, k - 1);
        let d = abs[i]@[k - 1] as int;
        if i < d < ends[i] && d < ends.len() && d < ends[d] <= ends[i] {
            abs_walk(op, ends, abs, prev, d)
        } else {
            prev
        }
    } else {
        bases
    }
}

/// Walks the absolutely positioned descendants of flow `i` on behalf of `op`: flow `i`
/// is processed if it is wanted, then each registered descendant walks its own.
pub fn preorder_traverse_absolute<T: PreorderFlowTraversal>(op: &T, tree: &mut FlowTree, i: usize)
    requires
        old(tree).wf(),
        i < old(tree).len(),
    ensures
        final(tree).same_shape(old(tree)),
        final(tree).bases@ == abs_walk(op, old(tree).ends@, old(tree).abs_descendants@, old(tree).bases@, i as int),
    decreases old(tree).ends@[i as int] - i,
{
    let ghost ends = tree.ends@;
    let ghost abs = tree.abs_descendants@;
    if op.should_process(tree, i) {
        op.process(tree, i);
    }
    let ghost b1 = tree.bases@;
    let n = tree.abs_descendants[i].len();
    let mut k: usize = 0;
    while k < n
        invariant
            tree.wf(),
            tree.same_shape(old(tree)),
            ends == old(tree).ends@,
            abs == old(tree).abs_descendants@,
            i < tree.len(),
            n == abs[i as int]@.len(),
            0 <= k <= n,
            tree.bases@ == abs_list_walk(op, ends, abs, b1, i as int, k as int),
            b1 == if op.wants(old(tree).bases@[i as int]) {
                old(tree).bases@.update(
                    i as int,
                    op.processed(old(tree).bases@[i as int], kid_bases(ends, old(tree).bases@, i as int)),
                )
            } else {
                old(tree).bases@
            },
        decreases n - k,
    {
        let d = tree.abs_descendants[i][k];
        assert(abs[i as int]@[k as int] == d);
        assert(i < d < ends[i as int]);
        assert(ends[d as int] <= ends[i as int]);
        preorder_traverse_absolute(op, tree, d);
        k = k + 1;
    }
}

/// The base of flow `j` after a postorder walk: `old` before it, `new` after it.
pub open spec fn postorder_result<T: PostorderFlowTraversal>(op: &T, ends: Seq<usize>, old: Seq<FlowBase>, new: Seq<FlowBase>, j: int) -> FlowBase {
    if op.wants(old[j]) {
        op.processed(old[j], kid_bases(ends, new, j))
    } else {
        old[j]
    }
}

/// A bottom-up traversal.
pub trait PostorderFlowTraversal: Sized {
    /// What the operation makes of a flow's base, given its children's bases.
    spec fn processed(&self, own: FlowBase, kids: Seq<FlowBase>) -> FlowBase;

    /// Whether the operation acts on a flow.
    spec fn wants(&self, own: FlowBase) -> bool;

    /// The operation to perform on flow `i`.
    fn process(&self, tree: &mut FlowTree, i: usize)
        requires
            old(tree).wf(),
            i < old(tree).len(),
        ensures
            final(tree).same_shape(old(tree)),
            final(tree).bases@ == old(tree).bases@.update(
                i as int,
                self.processed(old(tree).bases@[i as int], old(tree).kids(i as int)),
            ),
    ;

    /// Returns true if flow `i` must be processed; its children are visited first either way.
    fn should_process(&self, tree: &FlowTree, i: usize) -> (r: bool)
        requires
            tree.wf(),
            i < tree.len(),
        ensures
            r == self.wants(tree.bases@[i as int]),
    ;
}

/// Walks the subtree of flow `i` in postorder on behalf of `op`.
pub fn postorder_traverse<T: PostorderFlowTraversal>(op: &T, tree: &mut FlowTree, i: usize)
    requires
        old(tree).wf(),
        i < old(tree).len(),
    ensures
        final(tree).same_shape(old(tree)),
        forall|j: int|
            0 <= j < old(tree).len() ==> #[trigger] final(tree).bases@[j] == if i <= j < old(tree).ends@[i as int] {
                postorder_result(op, old(tree).ends@, old(tree).bases@, final(tree).bases@, j)
            } else {
                old(tree).bases@[j]
            },
    decreases old(tree).ends@[i as int] - i,
{
    let ghost ends = tree.ends@;
    let ghost b0 = tree.bases@;
    let stop = tree.ends[i];
    let mut k: usize = i + 1;
    while k < stop
        invariant
            tree.wf(),
            tree.same_shape(old(tree)),
            ends == old(tree).ends@,
            b0 == old(tree).bases@,
            i < b0.len(),
            stop == ends[i as int],
            i < k <= stop,
            forall|a: int| i < a < k ==> #[trigger] ends[a] <= k,
            forall|j: int| 0 <= j < b0.len() && !(i < j < k) ==> #[trigger] tree.bases@[j] == b0[j],
            forall|j: int| i < j < k ==> #[trigger] tree.bases@[j] == postorder_result(op, ends, b0, tree.bases@, j),
        decreases stop - k,
    {
        let ghost cur = tree.bases@;
        let kend = tree.ends[k];
        postorder_traverse(op, tree, k);
        assert forall|j: int| i < j < kend implies #[trigger] tree.bases@[j] == postorder_result(op, ends, b0, tree.bases@, j) by {
            if j < k {
                assert(ends[j] <= k);
                assert forall|m: int| j < m < ends[j] implies cur[m] == tree.bases@[m] by {
                    assert(ends[m] <= k);
                }
                lemma_kid_bases_frame(ends, cur, tree.bases@, j);
            }
        }
        assert forall|a: int| i < a < kend implies #[trigger] ends[a] <= kend by {
            if a >= k {
                assert(ends[a] <= ends[k as int]);
            }
        }
        k = kend;
    }
    let ghost cur = tree.bases@;
    if op.should_process(tree, i) {
        op.process(tree, i);
    }
    proof {
        assert forall|m: int| i < m < ends[i as int] implies cur[m] == tree.bases@[m] by {}
        lemma_kid_bases_frame(ends, cur, tree.bases@, i as int);
        assert forall|j: int| i < j < stop implies #[trigger] tree.bases@[j] == postorder_result(op, ends, b0, tree.bases@, j) by {
            assert forall|m: int| j < m < ends[j] implies cur[m] == tree.bases@[m] by {
                assert(ends[j] <= ends[i as int]);
            }
            lemma_kid_bases_frame(ends, cur, tree.bases@, j);
        }
    }
}

/// The number of levels below flow `i` in its subtree.
pub open spec fn height(ends: Seq<usize>, i: int) -> nat
    decreases 2 * (ends[i] - i) + 1,
{
    if 0 <= i < ends.len() && i < ends[i] {
        kids_height(ends, ends[i] as int, i + 1)
    } else {
        0
    }
}

/// One more than the largest height among the siblings from `k` to `stop`, or 0.
pub open spec fn kids_height(ends: Seq<usize>, stop: int, k: int) -> nat
    decreases 2 * (stop - k) + 2,
{
    if 0 <= k < stop && k < ends.len() && k < ends[k] <= stop {
        let h = height(ends, k) + 1;
        let r = kids_height(ends, stop, ends[k] as int);
        if h >= r { h } else { r }
    } else {
        0
    }
}

/// The operation's state and the bases after the in-order walk from flow `i` at
/// `level`: the operation is asked whether to enter `i`; if it does, it processes `i`
/// at `level`, then walks each child in order at `level + 1`.
pub open spec fn inorder_walk<T: InorderFlowTraversal>(op: T, ends: Seq<usize>, bases: Seq<FlowBase>, i: int, level: nat) -> (T, Seq<FlowBase>)
    decreases 2 * (ends[i] - i) + 1,
{
    if 0 <= i < ends.len() && i < bases.len() && i < ends[i] {
        let op1 = op.after_enter(bases[i]);
        if !op.enters(bases[i]) {
            (op1, bases)
        } else {
            let b1 = bases.update(i, op1.processed(bases[i], level));
            let op2 = op1.after_process(bases[i], level);
            inorder_kids(op2, ends, b1, ends[i] as int, i + 1, level + 1)
        }
    } else {
        (op, bases)
    }
}

/// The in-order walk over the siblings from `k` to `stop`, each at `level`.
pub open spec fn inorder_kids<T: InorderFlowTraversal>(op: T, ends: Seq<usize>, bases: Seq<FlowBase>, stop: int, k: int, level: nat) -> (T, Seq<FlowBase>)
    decreases 2 * (stop - k) + 2,
{
    if 0 <= k < stop && k < ends.len() && k < ends[k] <= stop {
        let (op1, b1) = inorder_walk(op, ends, bases, k, level);
        inorder_kids(op1, ends, b1, stop, ends[k] as int, level)
    } else {
        (op, bases)
    }
}

/// An in-order (sequential only) traversal that tracks the depth of each flow.
pub trait InorderFlowTraversal: Sized {
    /// What the operation makes of a flow's base at depth `level`.
    spec fn processed(&self, own: FlowBase, level: nat) -> FlowBase;

    /// The operation's state after processing a flow at depth `level`.
    spec fn after_process(&self, own: FlowBase, level: nat) -> Self;

    /// Whether, in its current state, the walk enters a flow and its subtree.
    spec fn enters(&self, own: FlowBase) -> bool;

    /// The operation's state after being asked whether to enter a flow.
    spec fn after_enter(&self, own: FlowBase) -> Self;

    /// The operation to perform on flow `i` at depth `level`. It changes only flow `i`.
    fn process(&mut self, tree: &mut FlowTree, i: usize, level: u32)
        requires
            old(tree).wf(),
            i < old(tree).len(),
        ensures
            final(tree).same_shape(old(tree)),
            final(tree).bases@ == old(tree).bases@.update(
                i as int,
                old(self).processed(old(tree).bases@[i as int], level as nat),
            ),
            *final(self) == old(self).after_process(old(tree).bases@[i as int], level as nat),
    ;

    /// Returns true if flow `i` should be processed and false if neither it nor its
    /// descendants should be.
    fn should_process_subtree(&mut self, tree: &FlowTree, i: usize) -> (r: bool)
        requires
            tree.wf(),
            i < tree.len(),
        ensures
            r == old(self).enters(tree.bases@[i as int]),
            *final(self) == old(self).after_enter(tree.bases@[i as int]),
    ;
}

/// Walks the subtree of flow `i` in order on behalf of `op`, flow `i` at `level`.
pub fn inorder_traverse<T: InorderFlowTraversal>(op: &mut T, tree: &mut FlowTree, i: usize, level: u32)
    requires
        old(tree).wf(),
        i < old(tree).len(),
        level + height(old(tree).ends@, i as int) <= u32::MAX,
    ensures
        final(tree).same_shape(old(tree)),
        (*final(op), final(tree).bases@) == inorder_walk(*old(op), old(tree).ends@, old(tree).bases@, i as int, level as nat),
    decreases old(tree).ends@[i as int] - i,
{
    let ghost ends = tree.ends@;
    if !op.should_process_subtree(tree, i) {
        return;
    }
    op.process(tree, i, level);
    let stop = tree.ends[i];
    let mut k: usize = i + 1;
    while k < stop
        invariant
            tree.wf(),
            tree.same_shape(old(tree)),
            ends == old(tree).ends@,
            i < tree.len(),
            stop == ends[i as int],
            i < k <= stop,
            level + 1 + kids_height(ends, stop as int, k as int) <= u32::MAX + 1,
            level + kids_height(ends, stop as int, k as int) <= u32::MAX,
            inorder_kids(*op, ends, tree.bases@, stop as int, k as int, level as nat + 1)
                == inorder_walk(*old(op), ends, old(tree).bases@, i as int, level as nat),
        decreases stop - k,
    {
        assert(ends[k as int] <= stop);
        let kend = tree.ends[k];
        assert(kids_height(ends, stop as int, k as int) >= height(ends, k as int) + 1);
        inorder_traverse(op, tree, k, level + 1);
        k = kend;
    }
}

/// The bubble-inline-sizes traversal, the first part of layout computation: it
/// computes intrinsic inline-sizes and bubbles them up the tree.
pub struct BubbleISizes<'a> {
    pub layout_context: &'a LayoutContext,
}

impl<'a> PostorderFlowTraversal for BubbleISizes<'a> {
    open spec fn processed(&self, own: FlowBase, kids: Seq<FlowBase>) -> FlowBase {
        bubbled(own, kids)
    }

    open spec fn wants(&self, own: FlowBase) -> bool {
        own.restyle_damage.bubble_isizes
    }

    fn process(&self, tree: &mut FlowTree, i: usize) {
        tree.bubble_inline_sizes(i);
    }

    fn should_process(&self, tree: &FlowTree, i: usize) -> (r: bool) {
        tree.bases[i].restyle_damage.bubble_isizes
    }
}

impl<'a> BubbleISizes<'a> {
    pub fn traverse(&self, tree: &mut FlowTree, i: usize)
        requires
            old(tree).wf(),
            i < old(tree).len(),
        ensures
            final(tree).same_shape(old(tree)),
            forall|j: int|
                0 <= j < old(tree).len() ==> #[trigger] final(tree).bases@[j] == if i <= j < old(tree).ends@[i as int]
                    && old(tree).bases@[j].restyle_damage.bubble_isizes {
                    bubbled(old(tree).bases@[j], final(tree).kids(j))
                } else {
                    old(tree).bases@[j]
                },
    {
        postorder_traverse(self, tree, i)
    }
}

/// The assign-inline-sizes traversal, top-down.
#[derive(Clone, Copy)]
pub struct AssignISizes<'a> {
    pub layout_context: &'a LayoutContext,
}

impl<'a> PreorderFlowTraversal for AssignISizes<'a> {
    open spec fn processed(&self, own: FlowBase, kids: Seq<FlowBase>) -> FlowBase {
        inline_sized(own)
    }

    open spec fn enters(&self, own: FlowBase) -> bool {
        true
    }

    open spec fn wants(&self, own: FlowBase) -> bool {
        own.restyle_damage.needs_reflow_spec()
    }

    fn process(&self, tree: &mut FlowTree, i: usize) {
        tree.assign_inline_sizes(i);
    }

    fn should_process_subtree(&self, tree: &FlowTree, i: usize) -> (r: bool) {
        true
    }

    fn should_process(&self, tree: &FlowTree, i: usize) -> (r: bool) {
        tree.bases[i].restyle_damage.needs_reflow()
    }
}

impl<'a> AssignISizes<'a> {
    pub fn traverse(&self, tree: &mut FlowTree, i: usize)
        requires
            old(tree).wf(),
            i < old(tree).len(),
        ensures
            final(tree).same_shape(old(tree)),
            forall|j: int|
                0 <= j < old(tree).len() ==> #[trigger] final(tree).bases@[j] == if i <= j < old(tree).ends@[i as int]
                    && old(tree).bases@[j].restyle_damage.needs_reflow_spec() {
                    inline_sized(old(tree).bases@[j])
                } else {
                    old(tree).bases@[j]
                },
    {
        preorder_traverse(self, tree, i)
    }

    pub fn traverse_absolute_flows(&self, tree: &mut FlowTree, i: usize)
        requires
            old(tree).wf(),
            i < old(tree).len(),
        ensures
            final(tree).same_shape(old(tree)),
            final(tree).bases@ == abs_walk(self, old(tree).ends@, old(tree).abs_descendants@, old(tree).bases@, i as int),
    {
        preorder_traverse_absolute(self, tree, i)
    }
}

/// The assign-block-sizes traversal, the last part of layout computation: it
/// determines the final block-sizes bottom-up.
#[derive(Clone, Copy)]
pub struct AssignBSizes<'a> {
    pub layout_context: &'a LayoutContext,
}

impl<'a> PostorderFlowTraversal for AssignBSizes<'a> {
    /// A flow that floats might flow through waits for its in-order parent and keeps
    /// its damage: nothing has been reflowed yet.
    open spec fn processed(&self, own: FlowBase, kids: Seq<FlowBase>) -> FlowBase {
        if own.flags.floats_might_flow_through {
            own
        } else {
            block_sized(own, kids)
        }
    }

    /// The fragmentation container sizes a fragmentable flow itself.
    open spec fn wants(&self, own: FlowBase) -> bool {
        own.restyle_damage.needs_reflow_spec() && !own.flags.can_be_fragmented
    }

    fn process(&self, tree: &mut FlowTree, i: usize) {
        if tree.bases[i].flags.floats_might_flow_through {
            return;
        }
        tree.assign_block_size(i);
    }

    fn should_process(&self, tree: &FlowTree, i: usize) -> (r: bool) {
        let base = &tree.bases[i];
        base.restyle_damage.needs_reflow() && !base.flags.can_be_fragmented
    }
}

impl<'a> AssignBSizes<'a> {
    pub fn traverse(&self, tree: &mut FlowTree, i: usize)
        requires
            old(tree).wf(),
            i < old(tree).len(),
        ensures
            final(tree).same_shape(old(tree)),
            forall|j: int|
                0 <= j < old(tree).len() ==> #[trigger] final(tree).bases@[j] == if i <= j < old(tree).ends@[i as int]
                    && old(tree).bases@[j].restyle_damage.needs_reflow_spec()
                    && !old(tree).bases@[j].flags.can_be_fragmented
                    && !old(tree).bases@[j].flags.floats_might_flow_through {
                    block_sized(old(tree).bases@[j], final(tree).kids(j))
                } else {
                    old(tree).bases@[j]
                },
    {
        postorder_traverse(self, tree, i)
    }
}

/// The traversal that computes stacking-relative positions, entering only the
/// subtrees that need repositioning.
pub struct ComputeStackingRelativePositions<'a> {
    pub layout_context: &'a LayoutContext,
}

impl<'a> PreorderFlowTraversal for ComputeStackingRelativePositions<'a> {
    open spec fn processed(&self, own: FlowBase, kids: Seq<FlowBase>) -> FlowBase {
        repositioned(own)
    }

    open spec fn enters(&self, own: FlowBase) -> bool {
        own.restyle_damage.reposition
    }

    open spec fn wants(&self, own: FlowBase) -> bool {
        true
    }

    fn process(&self, tree: &mut FlowTree, i: usize) {
        tree.compute_stacking_relative_position(i);
    }

    fn should_process_subtree(&self, tree: &FlowTree, i: usize) -> (r: bool) {
        tree.bases[i].restyle_damage.reposition
    }

    fn should_process(&self, tree: &FlowTree, i: usize) -> (r: bool) {
        true
    }
}

impl<'a> ComputeStackingRelativePositions<'a> {
    pub fn traverse(&self, tree: &mut FlowTree, i: usize)
        requires
            old(tree).wf(),
            i < old(tree).len(),
        ensures
            final(tree).same_shape(old(tree)),
            forall|j: int|
                0 <= j < old(tree).len() ==> #[trigger] final(tree).bases@[j] == if i <= j < old(tree).ends@[i as int]
                    && (forall|a: int|
                    i <= a <= j && j < old(tree).ends@[a] ==> (#[trigger] old(tree).bases@[a]).restyle_damage.reposition) {
                    repositioned(old(tree).bases@[j])
                } else {
                    old(tree).bases@[j]
                },
    {
        preorder_traverse(self, tree, i)
    }

    pub fn traverse_absolute_flows(&self, tree: &mut FlowTree, i: usize)
        requires
            old(tree).wf(),
            i < old(tree).len(),
        ensures
            final(tree).same_shape(old(tree)),
            final(tree).bases@ == abs_walk(self, old(tree).ends@, old(tree).abs_descendants@, old(tree).bases@, i as int),
    {
        preorder_traverse_absolute(self, tree, i)
    }
}

} // verus!
