use vstd::prelude::*;
use crate::damage::RestyleDamage;

verus! {

/// Per-flow flags that are orthogonal to damage.
#[derive(Clone, Copy, Debug, PartialEq, Eq, Structural)]
pub struct FlowFlags {
    /// A fragmentation container sizes this flow itself.
    pub can_be_fragmented: bool,
    /// Floats may flow through this flow, so its block size waits for the in-order pass.
    pub floats_might_flow_through: bool,
}

/// A point in the inline and block directions.
#[derive(Clone, Copy, Debug, PartialEq, Eq, Structural)]
pub struct Point {
    pub i: u64,
    pub b: u64,
}

/// The base record of one flow: its damage, its flags, the inputs the geometry
/// operations read and the outputs they write.
#[derive(Clone, Copy, Debug, PartialEq, Eq, Structural)]
pub struct FlowBase {
    pub restyle_damage: RestyleDamage,
    pub flags: FlowFlags,
    /// Inline-size of the flow's own content, as measured elsewhere.
    pub content_inline_size: u64,
    /// Block-size of the flow's own content, as measured elsewhere.
    pub content_block_size: u64,
    /// Inline-size available from the containing block.
    pub block_container_inline_size: u64,
    /// Position of the flow within its containing block.
    pub position: Point,
    /// The transform is not invertible or scales to zero.
    pub has_degenerate_transform: bool,
    pub stacking_context_id: u64,
    pub clipping_and_scrolling: u64,
    /// Output of the bubble-inline-sizes phase.
    pub intrinsic_inline_size: u64,
    /// Output of the assign-inline-sizes phase.
    pub inline_size: u64,
    /// Output of the assign-block-sizes phase.
    pub block_size: u64,
    /// Output of the stacking-relative-position phase.
    pub stacking_relative_position: Point,
}

/// The flow tree, held as an arena in preorder: the subtree of flow `i` is the
/// index range `[i, ends[i])`, its first child (if any) is `i + 1`, and the
/// child after a child `k` is `ends[k]`. `abs_descendants[i]` lists, without
/// owning them, the absolutely positioned descendants of `i`.
pub struct FlowTree {
    pub bases: Vec<FlowBase>,
    pub ends: Vec<usize>,
    pub abs_descendants: Vec<Vec<usize>>,
}

/// Subtree ranges are non-empty, stay in bounds and nest.
pub open spec fn ends_wf(ends: Seq<usize>) -> bool {
    &&& forall|i: int| 0 <= i < ends.len() ==> i < #[trigger] ends[i] <= ends.len()
    &&& forall|i: int, j: int|
        0 <= i < j < ends[i] ==> #[trigger] ends[j] <= #[trigger] ends[i]
}

/// The flows listed from sibling `k` up to the end `stop` of their parent's subtree.
pub open spec fn kids_from(ends: Seq<usize>, bases: Seq<FlowBase>, stop: int, k: int) -> Seq<FlowBase>
    decreases stop - k,
{
    if 0 <= k < stop && k < ends.len() && k < ends[k] <= stop {
        seq![bases[k]] + kids_from(ends, bases, stop, ends[k] as int)
    } else {
        Seq::empty()
    }
}

/// The bases of the children of flow `i`, in order.
pub open spec fn kid_bases(ends: Seq<usize>, bases: Seq<FlowBase>, i: int) -> Seq<FlowBase> {
    kids_from(ends, bases, ends[i] as int, i + 1)
}

/// `j` lies in the subtree of `a`.
pub open spec fn in_subtree(ends: Seq<usize>, a: int, j: int) -> bool {
    a <= j < ends[a]
}

/// The children list only reads the bases inside `[k, stop)`.
pub proof fn lemma_kids_frame(ends: Seq<usize>, b1: Seq<FlowBase>, b2: Seq<FlowBase>, stop: int, k: int)
    requires
        forall|m: int| k <= m < stop ==> b1[m] == b2[m],
    ensures
        kids_from(ends, b1, stop, k) == kids_from(ends, b2, stop, k),
    decreases stop - k,
{
    if 0 <= k < stop && k < ends.len() && k < ends[k] <= stop {
        lemma_kids_frame(ends, b1, b2, stop, ends[k] as int);
    }
}

/// The children list of `i` only reads the bases strictly inside the subtree of `i`.
pub proof fn lemma_kid_bases_frame(ends: Seq<usize>, b1: Seq<FlowBase>, b2: Seq<FlowBase>, i: int)
    requires
        forall|m: int| i < m < ends[i] ==> b1[m] == b2[m],
    ensures
        kid_bases(ends, b1, i) == kid_bases(ends, b2, i),
{
    lemma_kids_frame(ends, b1, b2, ends[i] as int, i + 1);
}

impl FlowTree {
    pub open spec fn len(&self) -> nat {
        self.bases@.len()
    }

    pub open spec fn wf(&self) -> bool {
        &&& self.ends@.len() == self.bases@.len()
        &&& self.abs_descendants@.len() == self.bases@.len()
        &&& ends_wf(self.ends@)
        &&& forall|i: int, k: int|
            0 <= i < self.abs_descendants@.len() && 0 <= k < self.abs_descendants@[i]@.len()
                ==> i < #[trigger] self.abs_descendants@[i]@[k] < self.ends@[i]
    }

    /// The bases of the children of flow `i`.
    pub open spec fn kids(&self, i: int) -> Seq<FlowBase> {
        kid_bases(self.ends@, self.bases@, i)
    }

    /// The same shape: subtree ranges and absolute-descendant links.
    pub open spec fn same_shape(&self, other: &FlowTree) -> bool {
        &&& self.ends@ == other.ends@
        &&& self.abs_descendants@ == other.abs_descendants@
        &&& self.bases@.len() == other.bases@.len()
    }
}

/// The largest intrinsic inline-size among `s`, or 0.
pub open spec fn max_intrinsic(s: Seq<FlowBase>) -> u64
    decreases s.len(),
{
    if s.len() == 0 {
        0
    } else {
        let rest = max_intrinsic(s.drop_first());
        if s[0].intrinsic_inline_size >= rest { s[0].intrinsic_inline_size } else { rest }
    }
}

/// The sum of the block-sizes of `s`, stacked one after the other.
pub open spec fn stacked_block_size(s: Seq<FlowBase>) -> int
    decreases s.len(),
{
    if s.len() == 0 {
        0
    } else {
        s[0].block_size + stacked_block_size(s.drop_first())
    }
}

/// A stand-in for the intrinsic inline-size rule of the box-specific geometry code:
/// the widest of the flow's own content and its children.
pub open spec fn bubbled(own: FlowBase, kids: Seq<FlowBase>) -> FlowBase {
    let m = max_intrinsic(kids);
    FlowBase {
        intrinsic_inline_size: if own.content_inline_size >= m { own.content_inline_size } else { m },
        restyle_damage: RestyleDamage { bubble_isizes: false, ..own.restyle_damage },
        ..own
    }
}

/// A stand-in for the inline-size rule of the box-specific geometry code: the
/// intrinsic inline-size, capped by what the container offers.
pub open spec fn inline_sized(own: FlowBase) -> FlowBase {
    FlowBase {
        inline_size: if own.intrinsic_inline_size <= own.block_container_inline_size {
            own.intrinsic_inline_size
        } else {
            own.block_container_inline_size
        },
        ..own
    }
}

/// A stand-in for the block-size rule of the box-specific geometry code: the flow's
/// own content with its children stacked below, saturating at the largest `u64`.
/// Both reflow flags are then satisfied.
pub open spec fn block_sized(own: FlowBase, kids: Seq<FlowBase>) -> FlowBase {
    let total = own.content_block_size + stacked_block_size(kids);
    FlowBase {
        block_size: if total <= u64::MAX { total as u64 } else { u64::MAX },
        restyle_damage: RestyleDamage { reflow: false, reflow_out_of_flow: false, ..own.restyle_damage },
        ..own
    }
}

/// A stand-in for the stacking-relative position rule of the box-specific geometry
/// code: the flow's own position. `reposition` is then satisfied.
pub open spec fn repositioned(own: FlowBase) -> FlowBase {
    FlowBase {
        stacking_relative_position: own.position,
        restyle_damage: RestyleDamage { reposition: false, ..own.restyle_damage },
        ..own
    }
}

impl FlowTree {
    /// Computes the intrinsic inline-size of flow `i` from its content and children.
    pub fn bubble_inline_sizes(&mut self, i: usize)
        requires
            old(self).wf(),
            i < old(self).len(),
        ensures
            final(self).same_shape(old(self)),
            final(self).bases@ == old(self).bases@.update(
                i as int,
                bubbled(old(self).bases@[i as int], old(self).kids(i as int)),
            ),
    {
        let ghost kids = self.kids(i as int);
        let stop = self.ends[i];
        let mut m: u64 = 0;
        let mut k: usize = i + 1;
        while k < stop
            invariant
                self.wf(),
                i < self.len(),
                stop == self.ends@[i as int],
                i < k <= stop,
                kids == self.kids(i as int),
                max_intrinsic(kids) == {
                    let r = max_intrinsic(kids_from(self.ends@, self.bases@, stop as int, k as int));
                    if m >= r { m } else { r }
                },
            decreases stop - k,
        {
            let ghost rest = kids_from(self.ends@, self.bases@, stop as int, self.ends@[k as int] as int);
            let ghost cur = kids_from(self.ends@, self.bases@, stop as int, k as int);
            assert(cur.drop_first() == rest);
            let v = self.bases[k].intrinsic_inline_size;
            if v > m {
                m = v;
            }
            k = self.ends[k];
        }
        let mut b = self.bases[i];
        b.intrinsic_inline_size = if b.content_inline_size >= m { b.content_inline_size } else { m };
        b.restyle_damage.bubble_isizes = false;
        self.bases.set(i, b);
    }

    /// Assigns the inline-size of flow `i`.
    pub fn assign_inline_sizes(&mut self, i: usize)
        requires
            old(self).wf(),
            i < old(self).len(),
        ensures
            final(self).same_shape(old(self)),
            final(self).bases@ == old(self).bases@.update(i as int, inline_sized(old(self).bases@[i as int])),
    {
        let mut b = self.bases[i];
        b.inline_size = if b.intrinsic_inline_size <= b.block_container_inline_size {
            b.intrinsic_inline_size
        } else {
            b.block_container_inline_size
        };
        self.bases.set(i, b);
    }

    /// Assigns the block-size of flow `i` from its content and its children.
    pub fn assign_block_size(&mut self, i: usize)
        requires
            old(self).wf(),
            i < old(self).len(),
        ensures
            final(self).same_shape(old(self)),
            final(self).bases@ == old(self).bases@.update(
                i as int,
                block_sized(old(self).bases@[i as int], old(self).kids(i as int)),
            ),
    {
        let ghost kids = self.kids(i as int);
        let stop = self.ends[i];
        let mut acc: u64 = self.bases[i].content_block_size;
        let ghost target = self.bases@[i as int].content_block_size + stacked_block_size(kids);
        let mut k: usize = i + 1;
        proof {
            lemma_stacked_nonneg(kids);
        }
        while k < stop
            invariant
                self.wf(),
                i < self.len(),
                stop == self.ends@[i as int],
                i < k <= stop,
                kids == self.kids(i as int),
                target == self.bases@[i as int].content_block_size + stacked_block_size(kids),
                ({
                    let t = acc + stacked_block_size(kids_from(self.ends@, self.bases@, stop as int, k as int));
                    (if t <= u64::MAX { t } else { u64::MAX as int })
                        == (if target <= u64::MAX { target } else { u64::MAX as int })
                }),
            decreases stop - k,
        {
            let ghost rest = kids_from(self.ends@, self.bases@, stop as int, self.ends@[k as int] as int);
            let ghost cur = kids_from(self.ends@, self.bases@, stop as int, k as int);
            assert(cur.drop_first() == rest);
            proof {
                lemma_stacked_nonneg(rest);
            }
            acc = acc.saturating_add(self.bases[k].block_size);
            k = self.ends[k];
        }
        let mut b = self.bases[i];
        b.block_size = acc;
        b.restyle_damage.reflow = false;
        b.restyle_damage.reflow_out_of_flow = false;
        self.bases.set(i, b);
    }

    /// Computes the stacking-relative position of flow `i`.
    pub fn compute_stacking_relative_position(&mut self, i: usize)
        requires
            old(self).wf(),
            i < old(self).len(),
        ensures
            final(self).same_shape(old(self)),
            final(self).bases@ == old(self).bases@.update(i as int, repositioned(old(self).bases@[i as int])),
    {
        let mut b = self.bases[i];
        b.stacking_relative_position = b.position;
        b.restyle_damage.reposition = false;
        self.bases.set(i, b);
    }
}

pub proof fn lemma_stacked_nonneg(s: Seq<FlowBase>)
    ensures
        stacked_block_size(s) >= 0,
    decreases s.len(),
{
    if s.len() > 0 {
        lemma_stacked_nonneg(s.drop_first());
    }
}

/// The shared context of one layout run.
#[derive(Clone, Copy, Debug, PartialEq, Eq, Structural)]
pub struct LayoutContext {
    /// Rebuild every flow, whatever its damage.
    pub nonincremental_layout: bool,
}

} // verus!
