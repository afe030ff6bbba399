use layout::damage::RestyleDamage;
use layout::display_list::{BuildDisplayList, DisplayItem, DisplayListBuildState};
use layout::flow::{FlowBase, FlowFlags, FlowTree, LayoutContext, Point};
use layout::traversal::{AssignBSizes, AssignISizes, BubbleISizes, ComputeStackingRelativePositions};

fn no_damage() -> RestyleDamage {
    RestyleDamage::empty()
}

fn base() -> FlowBase {
    FlowBase {
        restyle_damage: no_damage(),
        flags: FlowFlags { can_be_fragmented: false, floats_might_flow_through: false },
        content_inline_size: 0,
        content_block_size: 0,
        block_container_inline_size: 0,
        position: Point { i: 0, b: 0 },
        has_degenerate_transform: false,
        stacking_context_id: 0,
        clipping_and_scrolling: 0,
        intrinsic_inline_size: 0,
        inline_size: 0,
        block_size: 0,
        stacking_relative_position: Point { i: 0, b: 0 },
    }
}

fn tree(bases: Vec<FlowBase>, ends: Vec<usize>) -> FlowTree {
    let n = bases.len();
    FlowTree { bases, ends, abs_descendants: vec![Vec::new(); n] }
}

fn reflow() -> RestyleDamage {
    RestyleDamage { reflow: true, ..no_damage() }
}

// A chain A -> B -> C: subtrees [0, 3), [1, 3), [2, 3).
fn chain(a: FlowBase, b: FlowBase, c: FlowBase) -> FlowTree {
    tree(vec![a, b, c], vec![3, 3, 3])
}

#[test]
fn assign_isizes_only_touches_the_damaged_flow_of_a_chain() {
    let mut a = base();
    a.intrinsic_inline_size = 50;
    a.block_container_inline_size = 100;
    a.inline_size = 7;
    let b = a;
    let mut c = a;
    c.restyle_damage = reflow();
    let mut t = chain(a, b, c);
    let ctx = LayoutContext { nonincremental_layout: false };
    AssignISizes { layout_context: &ctx }.traverse(&mut t, 0);
    assert_eq!(t.bases[0].inline_size, 7);
    assert_eq!(t.bases[1].inline_size, 7);
    assert_eq!(t.bases[2].inline_size, 50);
}

#[test]
fn assign_isizes_caps_at_the_container() {
    let mut a = base();
    a.intrinsic_inline_size = 300;
    a.block_container_inline_size = 120;
    a.restyle_damage = RestyleDamage { reflow_out_of_flow: true, ..no_damage() };
    let mut t = tree(vec![a], vec![1]);
    let ctx = LayoutContext { nonincremental_layout: false };
    AssignISizes { layout_context: &ctx }.traverse(&mut t, 0);
    assert_eq!(t.bases[0].inline_size, 120);
    assert!(t.bases[0].restyle_damage.reflow_out_of_flow);
}

// Root 0 with children 1 (which has child 2) and 3.
fn small_tree(damage: RestyleDamage) -> FlowTree {
    let mut bs = vec![base(), base(), base(), base()];
    for (k, b) in bs.iter_mut().enumerate() {
        b.restyle_damage = damage;
        b.content_inline_size = [10, 40, 25, 30][k];
        b.content_block_size = [5, 7, 11, 13][k];
    }
    tree(bs, vec![4, 3, 3, 4])
}

#[test]
fn bubble_isizes_takes_the_widest_of_content_and_children() {
    let mut t = small_tree(RestyleDamage { bubble_isizes: true, ..no_damage() });
    let ctx = LayoutContext { nonincremental_layout: false };
    BubbleISizes { layout_context: &ctx }.traverse(&mut t, 0);
    assert_eq!(t.bases[2].intrinsic_inline_size, 25);
    assert_eq!(t.bases[1].intrinsic_inline_size, 40);
    assert_eq!(t.bases[3].intrinsic_inline_size, 30);
    assert_eq!(t.bases[0].intrinsic_inline_size, 40);
    for b in t.bases.iter() {
        assert!(!b.restyle_damage.bubble_isizes);
    }
}

#[test]
fn bubble_isizes_twice_is_a_no_op_the_second_time() {
    let mut t = small_tree(RestyleDamage { bubble_isizes: true, ..no_damage() });
    let ctx = LayoutContext { nonincremental_layout: false };
    BubbleISizes { layout_context: &ctx }.traverse(&mut t, 0);
    let once = t.bases.clone();
    t.bases[1].content_inline_size = 999;
    BubbleISizes { layout_context: &ctx }.traverse(&mut t, 0);
    assert_eq!(t.bases[0], once[0]);
    assert_eq!(t.bases[1].intrinsic_inline_size, once[1].intrinsic_inline_size);
    assert_eq!(t.bases[2..], once[2..]);
}

#[test]
fn assign_bsizes_stacks_children_and_clears_reflow() {
    let mut t = small_tree(reflow());
    let ctx = LayoutContext { nonincremental_layout: false };
    AssignBSizes { layout_context: &ctx }.traverse(&mut t, 0);
    assert_eq!(t.bases[2].block_size, 11);
    assert_eq!(t.bases[1].block_size, 18);
    assert_eq!(t.bases[3].block_size, 13);
    assert_eq!(t.bases[0].block_size, 36);
    assert!(!t.bases[0].restyle_damage.reflow);
    let once = t.bases.clone();
    AssignBSizes { layout_context: &ctx }.traverse(&mut t, 0);
    assert_eq!(t.bases, once);
}

#[test]
fn assign_bsizes_saturates() {
    let mut t = small_tree(reflow());
    t.bases[3].content_block_size = u64::MAX - 3;
    let ctx = LayoutContext { nonincremental_layout: false };
    AssignBSizes { layout_context: &ctx }.traverse(&mut t, 0);
    assert_eq!(t.bases[0].block_size, u64::MAX);
}

#[test]
fn assign_bsizes_leaves_floats_and_fragmentable_flows_alone() {
    let mut t = small_tree(reflow());
    t.bases[1].flags.floats_might_flow_through = true;
    t.bases[3].flags.can_be_fragmented = true;
    let ctx = LayoutContext { nonincremental_layout: false };
    AssignBSizes { layout_context: &ctx }.traverse(&mut t, 0);
    assert_eq!(t.bases[1].block_size, 0);
    assert!(t.bases[1].restyle_damage.reflow);
    assert_eq!(t.bases[3].block_size, 0);
    assert!(t.bases[3].restyle_damage.reflow);
    assert_eq!(t.bases[2].block_size, 11);
    assert_eq!(t.bases[0].block_size, 5);
}

#[test]
fn stacking_positions_skip_subtrees_without_reposition() {
    let mut t = small_tree(RestyleDamage { reposition: true, ..no_damage() });
    for (k, b) in t.bases.iter_mut().enumerate() {
        b.position = Point { i: k as u64 + 1, b: 2 * k as u64 };
    }
    t.bases[1].restyle_damage.reposition = false;
    let ctx = LayoutContext { nonincremental_layout: false };
    ComputeStackingRelativePositions { layout_context: &ctx }.traverse(&mut t, 0);
    assert_eq!(t.bases[0].stacking_relative_position, Point { i: 1, b: 0 });
    assert_eq!(t.bases[1].stacking_relative_position, Point { i: 0, b: 0 });
    assert_eq!(t.bases[2].stacking_relative_position, Point { i: 0, b: 0 });
    assert!(t.bases[2].restyle_damage.reposition);
    assert_eq!(t.bases[3].stacking_relative_position, Point { i: 4, b: 6 });
    assert!(!t.bases[3].restyle_damage.reposition);
}

#[test]
fn absolute_flows_walk_only_the_registered_descendants() {
    let mut t = small_tree(reflow());
    for b in t.bases.iter_mut() {
        b.intrinsic_inline_size = 9;
        b.block_container_inline_size = 100;
    }
    t.abs_descendants[0] = vec![2];
    let ctx = LayoutContext { nonincremental_layout: false };
    AssignISizes { layout_context: &ctx }.traverse_absolute_flows(&mut t, 0);
    assert_eq!(t.bases[0].inline_size, 9);
    assert_eq!(t.bases[1].inline_size, 0);
    assert_eq!(t.bases[2].inline_size, 9);
    assert_eq!(t.bases[3].inline_size, 0);
}

fn builder() -> BuildDisplayList {
    BuildDisplayList {
        state: DisplayListBuildState {
            current_stacking_context_id: 77,
            current_clipping_and_scrolling: 88,
            items: Vec::new(),
        },
    }
}

#[test]
fn display_list_skips_a_zero_scale_subtree_and_restores_context() {
    let mut t = small_tree(RestyleDamage { repaint: true, ..no_damage() });
    for (k, b) in t.bases.iter_mut().enumerate() {
        b.stacking_context_id = 10 + k as u64;
        b.clipping_and_scrolling = 20 + k as u64;
    }
    t.bases[1].has_degenerate_transform = true;
    let mut dl = builder();
    dl.traverse(&mut t, 0);
    assert_eq!(
        dl.state.items,
        vec![
            DisplayItem { flow: 0, stacking_context_id: 10, clipping_and_scrolling: 20 },
            DisplayItem { flow: 3, stacking_context_id: 13, clipping_and_scrolling: 23 },
        ]
    );
    assert_eq!(dl.state.current_stacking_context_id, 77);
    assert_eq!(dl.state.current_clipping_and_scrolling, 88);
    assert!(!t.bases[0].restyle_damage.repaint);
    assert!(t.bases[1].restyle_damage.repaint);
    assert!(t.bases[2].restyle_damage.repaint);
    assert!(!t.bases[3].restyle_damage.repaint);
}

#[test]
fn display_list_of_a_skipped_root_is_empty() {
    let mut t = small_tree(RestyleDamage { repaint: true, ..no_damage() });
    t.bases[0].has_degenerate_transform = true;
    let mut dl = builder();
    dl.traverse(&mut t, 0);
    assert!(dl.state.items.is_empty());
    assert_eq!(dl.state.current_stacking_context_id, 77);
    assert_eq!(dl.state.current_clipping_and_scrolling, 88);
}

#[test]
fn display_list_paints_in_preorder() {
    let mut t = small_tree(no_damage());
    for (k, b) in t.bases.iter_mut().enumerate() {
        b.stacking_context_id = k as u64;
        b.clipping_and_scrolling = 5;
    }
    let mut dl = builder();
    dl.traverse(&mut t, 0);
    let flows: Vec<usize> = dl.state.items.iter().map(|d| d.flow).collect();
    assert_eq!(flows, vec![0, 1, 2, 3]);
    assert_eq!(dl.state.current_stacking_context_id, 77);
}

#[test]
fn phases_only_clear_their_own_damage() {
    let all = RestyleDamage {
        bubble_isizes: true,
        reflow_out_of_flow: true,
        reflow: true,
        reposition: true,
        repaint: true,
        reconstruct_flow: true,
    };
    let ctx = LayoutContext { nonincremental_layout: false };
    let mut t = small_tree(all);
    BubbleISizes { layout_context: &ctx }.traverse(&mut t, 0);
    assert_eq!(t.bases[0].restyle_damage, RestyleDamage { bubble_isizes: false, ..all });
    AssignISizes { layout_context: &ctx }.traverse(&mut t, 0);
    assert_eq!(t.bases[0].restyle_damage, RestyleDamage { bubble_isizes: false, ..all });
    AssignBSizes { layout_context: &ctx }.traverse(&mut t, 0);
    assert_eq!(
        t.bases[0].restyle_damage,
        RestyleDamage { bubble_isizes: false, reflow: false, reflow_out_of_flow: false, ..all }
    );
    ComputeStackingRelativePositions { layout_context: &ctx }.traverse(&mut t, 0);
    let mut dl = builder();
    dl.traverse(&mut t, 0);
    assert_eq!(
        t.bases[0].restyle_damage,
        RestyleDamage { reconstruct_flow: true, ..no_damage() }
    );
    assert!(!t.bases[0].restyle_damage.is_empty());
    assert!(RestyleDamage::empty().is_empty());
    assert!(all.needs_reflow());
}

#[test]
fn absolute_flows_walk_on_past_an_unwanted_flow() {
    let mut t = small_tree(no_damage());
    for b in t.bases.iter_mut() {
        b.intrinsic_inline_size = 9;
        b.block_container_inline_size = 4;
    }
    t.bases[1].restyle_damage = reflow();
    t.bases[2].restyle_damage = reflow();
    t.abs_descendants[0] = vec![3];
    t.abs_descendants[3] = Vec::new();
    t.abs_descendants[1] = vec![2];
    let ctx = LayoutContext { nonincremental_layout: false };
    AssignISizes { layout_context: &ctx }.traverse_absolute_flows(&mut t, 0);
    assert_eq!(t.bases[0].inline_size, 0);
    assert_eq!(t.bases[1].inline_size, 0);
    assert_eq!(t.bases[2].inline_size, 0);
    assert_eq!(t.bases[3].inline_size, 0);
    t.abs_descendants[0] = vec![1];
    AssignISizes { layout_context: &ctx }.traverse_absolute_flows(&mut t, 0);
    assert_eq!(t.bases[0].inline_size, 0);
    assert_eq!(t.bases[1].inline_size, 4);
    assert_eq!(t.bases[2].inline_size, 4);
    assert_eq!(t.bases[3].inline_size, 0);
}
