use layout::damage::RestyleDamage;
use layout::dom::{
    construct_flows_at, construct_flows_at_ancestors, text_node_needs_traversal, Construction, Document,
    DomNode, LayoutData, RecalcStyleAndConstructFlows,
};
use layout::flow::LayoutContext;

fn traversed() -> Option<LayoutData> {
    Some(LayoutData { has_been_traversed: true, construction: Construction::Kept })
}

fn element(parent: Option<usize>) -> DomNode {
    DomNode {
        is_text: false,
        parent,
        damage: RestyleDamage::empty(),
        dirty_descendants: false,
        layout_data: traversed(),
    }
}

fn text(parent: Option<usize>) -> DomNode {
    DomNode { is_text: true, ..element(parent) }
}

// 0 -> 1 -> 2 -> 3, plus a sibling 4 under 0.
fn document() -> Document {
    Document {
        nodes: vec![element(None), element(Some(0)), element(Some(1)), text(Some(2)), element(Some(0))],
        children: vec![vec![1, 4], vec![2], vec![3], vec![], vec![]],
    }
}

fn construction(doc: &Document, n: usize) -> Construction {
    doc.nodes[n].layout_data.unwrap().construction
}

#[test]
fn nonincremental_layout_rebuilds_every_node() {
    let ctx = LayoutContext { nonincremental_layout: true };
    let mut doc = document();
    for n in 0..5 {
        construct_flows_at(&ctx, &mut doc, n);
        assert_eq!(construction(&doc, n), Construction::Rebuilt);
        assert!(doc.nodes[n].layout_data.unwrap().has_been_traversed);
    }
}

#[test]
fn undamaged_node_keeps_its_flow() {
    let ctx = LayoutContext { nonincremental_layout: false };
    let mut doc = document();
    doc.nodes[2].layout_data = Some(LayoutData { has_been_traversed: false, construction: Construction::Rebuilt });
    construct_flows_at(&ctx, &mut doc, 2);
    assert_eq!(doc.nodes[2].layout_data, traversed());
}

#[test]
fn damaged_node_is_repaired_unless_it_needs_a_new_flow() {
    let ctx = LayoutContext { nonincremental_layout: false };
    let mut doc = document();
    doc.nodes[1].damage = RestyleDamage { repaint: true, ..RestyleDamage::empty() };
    doc.nodes[2].damage = RestyleDamage { reconstruct_flow: true, ..RestyleDamage::empty() };
    construct_flows_at(&ctx, &mut doc, 1);
    construct_flows_at(&ctx, &mut doc, 2);
    assert_eq!(construction(&doc, 1), Construction::Repaired);
    assert_eq!(construction(&doc, 2), Construction::Rebuilt);
}

#[test]
fn dirty_descendants_force_construction_and_are_cleared() {
    let ctx = LayoutContext { nonincremental_layout: false };
    let mut doc = document();
    doc.nodes[1].dirty_descendants = true;
    construct_flows_at(&ctx, &mut doc, 1);
    assert_eq!(construction(&doc, 1), Construction::Repaired);
    assert!(!doc.nodes[1].dirty_descendants);
}

#[test]
fn ancestor_repair_visits_every_ancestor_up_to_the_root() {
    let ctx = LayoutContext { nonincremental_layout: false };
    let mut doc = document();
    construct_flows_at_ancestors(&ctx, &mut doc, 3);
    for n in 0..3 {
        assert_eq!(construction(&doc, n), Construction::Repaired);
        assert!(!doc.nodes[n].dirty_descendants);
    }
    assert_eq!(construction(&doc, 3), Construction::Kept);
    assert_eq!(construction(&doc, 4), Construction::Kept);
}

#[test]
fn ancestor_repair_from_the_root_does_nothing() {
    let ctx = LayoutContext { nonincremental_layout: false };
    let mut doc = document();
    construct_flows_at_ancestors(&ctx, &mut doc, 0);
    assert_eq!(doc.nodes, document().nodes);
}

#[test]
fn text_node_needs_traversal_without_layout_data_or_under_damage() {
    let with_data = text(Some(0));
    let without = DomNode { layout_data: None, ..with_data };
    let damaged = RestyleDamage { reflow: true, ..RestyleDamage::empty() };
    assert!(!text_node_needs_traversal(&with_data, &RestyleDamage::empty()));
    assert!(text_node_needs_traversal(&with_data, &damaged));
    assert!(text_node_needs_traversal(&without, &RestyleDamage::empty()));
}

#[test]
fn preorder_skips_clean_text_children_of_an_undamaged_parent() {
    let traversal = RecalcStyleAndConstructFlows::new(LayoutContext { nonincremental_layout: false });
    let mut doc = document();
    let noted = traversal.process_preorder(&mut doc, 2, RestyleDamage::empty());
    assert!(noted.is_empty());
    let noted = traversal.process_preorder(&mut doc, 0, RestyleDamage::empty());
    assert_eq!(noted, vec![1, 4]);
    let damaged = RestyleDamage { repaint: true, ..RestyleDamage::empty() };
    let noted = traversal.process_preorder(&mut doc, 2, damaged);
    assert_eq!(noted, vec![3]);
    assert_eq!(doc.nodes[2].damage, damaged);
}

#[test]
fn preorder_attaches_layout_data_once() {
    let traversal = RecalcStyleAndConstructFlows::new(LayoutContext { nonincremental_layout: false });
    let mut doc = document();
    doc.nodes[3].layout_data = None;
    let noted = traversal.process_preorder(&mut doc, 2, RestyleDamage::empty());
    assert_eq!(noted, vec![3]);
    let noted = traversal.process_preorder(&mut doc, 3, RestyleDamage { repaint: true, ..RestyleDamage::empty() });
    assert!(noted.is_empty());
    assert_eq!(
        doc.nodes[3].layout_data,
        Some(LayoutData { has_been_traversed: false, construction: Construction::Kept })
    );
    assert!(doc.nodes[3].damage.is_empty());
    traversal.process_postorder(&mut doc, 3);
    assert_eq!(doc.nodes[3].layout_data, traversed());
}

#[test]
fn traversal_context_round_trips() {
    let ctx = LayoutContext { nonincremental_layout: true };
    let traversal = RecalcStyleAndConstructFlows::new(ctx);
    assert_eq!(*traversal.context(), ctx);
    assert_eq!(traversal.destroy(), ctx);
}
