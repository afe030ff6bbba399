use vstd::prelude::*;
use crate::damage::RestyleDamage;
use crate::display_list::repainted;
use crate::dom::{Construction, constructed, must_construct};
use crate::flow::{FlowBase, LayoutContext, block_sized, bubbled, inline_sized, kid_bases, repositioned};

verus! {

/// Bubbling inline-sizes twice in a row over the subtree of `i` changes nothing the
/// second time: `b1` is the result of a walk from `b0`, and `b2` of a walk from `b1`.
pub proof fn lemma_bubble_isizes_idempotent(ends: Seq<usize>, b0: Seq<FlowBase>, b1: Seq<FlowBase>, b2: Seq<FlowBase>, i: int)
    requires
        b1.len() == b0.len(),
        b2.len() == b0.len(),
        forall|j: int|
            0 <= j < b0.len() ==> #[trigger] b1[j] == if i <= j < ends[i] && b0[j].restyle_damage.bubble_isizes {
                bubbled(b0[j], kid_bases(ends, b1, j))
            } else {
                b0[j]
            },
        forall|j: int|
            0 <= j < b0.len() ==> #[trigger] b2[j] == if i <= j < ends[i] && b1[j].restyle_damage.bubble_isizes {
                bubbled(b1[j], kid_bases(ends, b2, j))
            } else {
                b1[j]
            },
    ensures
        b2 == b1,
{
    assert forall|j: int| 0 <= j < b0.len() implies b2[j] == b1[j] by {
        assert(b1[j] == b0[j] || !b1[j].restyle_damage.bubble_isizes);
    }
    assert(b2 =~= b1);
}

/// Assigning inline-sizes twice in a row over the subtree of `i` changes nothing the
/// second time.
pub proof fn lemma_assign_isizes_idempotent(ends: Seq<usize>, b0: Seq<FlowBase>, b1: Seq<FlowBase>, b2: Seq<FlowBase>, i: int)
    requires
        b1.len() == b0.len(),
        b2.len() == b0.len(),
        forall|j: int|
            0 <= j < b0.len() ==> #[trigger] b1[j] == if i <= j < ends[i] && b0[j].restyle_damage.needs_reflow_spec() {
                inline_sized(b0[j])
            } else {
                b0[j]
            },
        forall|j: int|
            0 <= j < b0.len() ==> #[trigger] b2[j] == if i <= j < ends[i] && b1[j].restyle_damage.needs_reflow_spec() {
                inline_sized(b1[j])
            } else {
                b1[j]
            },
    ensures
        b2 == b1,
{
    assert forall|j: int| 0 <= j < b0.len() implies b2[j] == b1[j] by {
        assert(b1[j] == b0[j] || b1[j] == inline_sized(b0[j]));
    }
    assert(b2 =~= b1);
}

/// Assigning block-sizes twice in a row over the subtree of `i` changes nothing the
/// second time.
pub proof fn lemma_assign_bsizes_idempotent(ends: Seq<usize>, b0: Seq<FlowBase>, b1: Seq<FlowBase>, b2: Seq<FlowBase>, i: int)
    requires
        b1.len() == b0.len(),
        b2.len() == b0.len(),
        forall|j: int|
            0 <= j < b0.len() ==> #[trigger] b1[j] == if i <= j < ends[i] && b0[j].restyle_damage.needs_reflow_spec()
                && !b0[j].flags.can_be_fragmented && !b0[j].flags.floats_might_flow_through {
                block_sized(b0[j], kid_bases(ends, b1, j))
            } else {
                b0[j]
            },
        forall|j: int|
            0 <= j < b0.len() ==> #[trigger] b2[j] == if i <= j < ends[i] && b1[j].restyle_damage.needs_reflow_spec()
                && !b1[j].flags.can_be_fragmented && !b1[j].flags.floats_might_flow_through {
                block_sized(b1[j], kid_bases(ends, b2, j))
            } else {
                b1[j]
            },
    ensures
        b2 == b1,
{
    assert forall|j: int| 0 <= j < b0.len() implies b2[j] == b1[j] by {
        assert(b1[j] == b0[j] || !b1[j].restyle_damage.needs_reflow_spec());
    }
    assert(b2 =~= b1);
}

/// Computing stacking-relative positions twice in a row over the subtree of `i`
/// changes nothing the second time.
pub proof fn lemma_stacking_positions_idempotent(ends: Seq<usize>, b0: Seq<FlowBase>, b1: Seq<FlowBase>, b2: Seq<FlowBase>, i: int)
    requires
        0 <= i < b0.len(),
        i < ends[i],
        b1.len() == b0.len(),
        b2.len() == b0.len(),
        forall|j: int|
            0 <= j < b0.len() ==> #[trigger] b1[j] == if i <= j < ends[i] && (forall|a: int|
                i <= a <= j && j < ends[a] ==> (#[trigger] b0[a]).restyle_damage.reposition) {
                repositioned(b0[j])
            } else {
                b0[j]
            },
        forall|j: int|
            0 <= j < b0.len() ==> #[trigger] b2[j] == if i <= j < ends[i] && (forall|a: int|
                i <= a <= j && j < ends[a] ==> (#[trigger] b1[a]).restyle_damage.reposition) {
                repositioned(b1[j])
            } else {
                b1[j]
            },
    ensures
        b2 == b1,
{
    assert(!b1[i].restyle_damage.reposition);
    assert forall|j: int| 0 <= j < b0.len() implies b2[j] == b1[j] by {
        if i <= j < ends[i] {
            assert(!b1[i].restyle_damage.reposition);
        }
    }
    assert(b2 =~= b1);
}

/// Each phase clears only the damage flag it satisfies and sets none.
pub proof fn lemma_phases_only_clear_their_damage(own: FlowBase, kids: Seq<FlowBase>)
    ensures
        bubbled(own, kids).restyle_damage == (RestyleDamage { bubble_isizes: false, ..own.restyle_damage }),
        inline_sized(own).restyle_damage == own.restyle_damage,
        block_sized(own, kids).restyle_damage == (RestyleDamage {
            reflow: false,
            reflow_out_of_flow: false,
            ..own.restyle_damage
        }),
        repositioned(own).restyle_damage == (RestyleDamage { reposition: false, ..own.restyle_damage }),
        repainted(own).restyle_damage == (RestyleDamage { repaint: false, ..own.restyle_damage }),
        bubbled(own, kids).restyle_damage.is_within(own.restyle_damage),
        inline_sized(own).restyle_damage.is_within(own.restyle_damage),
        block_sized(own, kids).restyle_damage.is_within(own.restyle_damage),
        repositioned(own).restyle_damage.is_within(own.restyle_damage),
        repainted(own).restyle_damage.is_within(own.restyle_damage),
{
}

/// Once flow construction has visited an element, its dirty-descendants flag is
/// clear, and if it was damaged or had dirty descendants its flow was rebuilt or
/// repaired rather than kept.
pub proof fn lemma_construction_accounts_for_damage(context: LayoutContext, node: crate::dom::DomNode)
    ensures
        constructed(context, node).layout_data->0.has_been_traversed,
        !node.is_text ==> !constructed(context, node).dirty_descendants,
        must_construct(context, node) <==> constructed(context, node).layout_data->0.construction
            != Construction::Kept,
        context.nonincremental_layout ==> constructed(context, node).layout_data->0.construction
            == Construction::Rebuilt,
{
}

} // verus!
