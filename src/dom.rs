use vstd::prelude::*;
use crate::damage::RestyleDamage;
use crate::flow::LayoutContext;

verus! {

/// What flow construction last did for a node.
#[derive(Clone, Copy, Debug, PartialEq, Eq, Structural)]
pub enum Construction {
    /// Nothing needed redoing; the existing flow was kept.
    Kept,
    /// The existing flow was patched in place.
    Repaired,
    /// A fresh flow subtree was built.
    Rebuilt,
}

/// The layout data attached to a node on its first visit.
#[derive(Clone, Copy, Debug, PartialEq, Eq, Structural)]
pub struct LayoutData {
    /// Flow construction has visited the node at least once.
    pub has_been_traversed: bool,
    pub construction: Construction,
}

/// A node of the styled document tree: an element or a text node.
#[derive(Clone, Copy, Debug, PartialEq, Eq, Structural)]
pub struct DomNode {
    pub is_text: bool,
    /// The traversal parent; it comes before the node in the document's arena.
    pub parent: Option<usize>,
    /// The damage that style resolution computed for the node.
    pub damage: RestyleDamage,
    /// Some descendant needs its flow reconstructed (elements only).
    pub dirty_descendants: bool,
    pub layout_data: Option<LayoutData>,
}

/// The styled document tree, held as an arena; `children[i]` lists the children of
/// node `i` in document order.
pub struct Document {
    pub nodes: Vec<DomNode>,
    pub children: Vec<Vec<usize>>,
}

/// Each parent comes before its child in the arena and is an element.
pub open spec fn parents_wf(nodes: Seq<DomNode>) -> bool {
    forall|i: int|
        0 <= i < nodes.len() && (#[trigger] nodes[i]).parent is Some ==> {
            &&& nodes[i].parent->0 < i
            &&& !nodes[nodes[i].parent->0 as int].is_text
        }
}

impl Document {
    pub open spec fn wf(&self) -> bool {
        &&& parents_wf(self.nodes@)
        &&& self.children@.len() == self.nodes@.len()
        &&& forall|i: int, k: int|
            0 <= i < self.nodes@.len() && 0 <= k < self.children@[i]@.len()
                ==> #[trigger] self.children@[i]@[k] < self.nodes@.len()
    }
}

/// The traversal ancestors of node `n`, from its parent up to the root.
pub open spec fn ancestors(nodes: Seq<DomNode>, n: int) -> Set<int>
    decreases n,
{
    if 0 <= n < nodes.len() && nodes[n].parent is Some && 0 <= nodes[n].parent->0 < n {
        let p = nodes[n].parent->0 as int;
        ancestors(nodes, p).insert(p)
    } else {
        Set::empty()
    }
}

/// The number of steps from node `n` up to the root.
pub open spec fn depth(nodes: Seq<DomNode>, n: int) -> nat
    decreases n,
{
    if 0 <= n < nodes.len() && nodes[n].parent is Some && 0 <= nodes[n].parent->0 < n {
        depth(nodes, nodes[n].parent->0 as int) + 1
    } else {
        0
    }
}

/// The ancestors of a node all come before it.
pub proof fn lemma_ancestors_before(nodes: Seq<DomNode>, n: int, m: int)
    requires
        ancestors(nodes, n).contains(m),
    ensures
        0 <= m < n,
    decreases n,
{
    let p = nodes[n].parent->0 as int;
    if m != p {
        lemma_ancestors_before(nodes, p, m);
    }
}

/// Flow construction must run for a node: incremental layout is off, the node is
/// damaged, or it is an element with dirty descendants.
pub open spec fn must_construct(context: LayoutContext, node: DomNode) -> bool {
    context.nonincremental_layout || !node.damage.is_empty_spec() || (!node.is_text && node.dirty_descendants)
}

/// The stand-in rule for in-place repair, which the box-generation code decides:
/// here repair declines exactly when the damage asks for a new flow.
pub open spec fn can_repair(node: DomNode) -> bool {
    !node.damage.reconstruct_flow
}

/// The node after flow construction has visited it.
pub open spec fn constructed(context: LayoutContext, node: DomNode) -> DomNode {
    let construction = if !must_construct(context, node) {
        Construction::Kept
    } else if context.nonincremental_layout || !can_repair(node) {
        Construction::Rebuilt
    } else {
        Construction::Repaired
    };
    DomNode {
        layout_data: Some(LayoutData { has_been_traversed: true, construction }),
        dirty_descendants: if node.is_text { node.dirty_descendants } else { false },
        ..node
    }
}

/// Patches the flow of `node` in place, or declines.
pub fn repair_if_possible(node: &DomNode) -> (r: bool)
    ensures
        r == can_repair(*node),
{
    !node.damage.reconstruct_flow
}

/// The flow construction step: rebuilds or repairs the flow of node `n` when it must,
/// marks the node as traversed and, for an element, clears its dirty descendants
/// once construction is done.
pub fn construct_flows_at(context: &LayoutContext, doc: &mut Document, n: usize)
    requires
        n < old(doc).nodes@.len(),
        old(doc).nodes@[n as int].layout_data is Some,
    ensures
        final(doc).nodes@ == old(doc).nodes@.update(n as int, constructed(*context, old(doc).nodes@[n as int])),
        final(doc).children == old(doc).children,
{
    let nonincremental_layout = context.nonincremental_layout;
    let node = doc.nodes[n];
    let mut construction = Construction::Kept;
    if nonincremental_layout || !node.damage.is_empty() || (!node.is_text && node.dirty_descendants) {
        if nonincremental_layout || !repair_if_possible(&node) {
            construction = Construction::Rebuilt;
        } else {
            construction = Construction::Repaired;
        }
    }
    let mut updated = node;
    updated.layout_data = Some(LayoutData { has_been_traversed: true, construction });
    if !updated.is_text {
        updated.dirty_descendants = false;
    }
    doc.nodes.set(n, updated);
}

/// The node as the ancestor walk leaves it: marked as having dirty descendants, then
/// visited by flow construction.
pub open spec fn repaired_ancestor(context: LayoutContext, node: DomNode) -> DomNode {
    constructed(context, DomNode { dirty_descendants: true, ..node })
}

/// Keeps the flows of the ancestors of node `n` consistent after `n` was changed
/// outside the bulk walk: from its parent up to the root, each ancestor is marked as
/// having dirty descendants and flow construction runs on it. No other node changes.
///
/// The caller keeps every other traversal away from this path while it runs.
pub fn construct_flows_at_ancestors(context: &LayoutContext, doc: &mut Document, n: usize)
    requires
        old(doc).wf(),
        n < old(doc).nodes@.len(),
        forall|m: int| #[trigger] ancestors(old(doc).nodes@, n as int).contains(m) ==> old(doc).nodes@[m].layout_data is Some,
    ensures
        final(doc).children == old(doc).children,
        final(doc).nodes@.len() == old(doc).nodes@.len(),
        forall|m: int|
            0 <= m < old(doc).nodes@.len() ==> #[trigger] final(doc).nodes@[m] == if ancestors(old(doc).nodes@, n as int).contains(m) {
                repaired_ancestor(*context, old(doc).nodes@[m])
            } else {
                old(doc).nodes@[m]
            },
{
    let ghost nodes0 = doc.nodes@;
    let ghost all = ancestors(nodes0, n as int);
    let mut node: usize = n;
    while doc.nodes[node].parent.is_some()
        invariant
            doc.wf(),
            doc.children == old(doc).children,
            nodes0 == old(doc).nodes@,
            all == ancestors(nodes0, n as int),
            node < nodes0.len(),
            doc.nodes@.len() == nodes0.len(),
            forall|m: int| #[trigger] all.contains(m) ==> nodes0[m].layout_data is Some,
            node == n || all.contains(node as int),
            doc.nodes@[node as int].parent == nodes0[node as int].parent,
            forall|m: int| #[trigger] ancestors(nodes0, node as int).contains(m) ==> all.contains(m),
            forall|m: int|
                0 <= m < nodes0.len() ==> #[trigger] doc.nodes@[m] == if all.contains(m) && !ancestors(nodes0, node as int).contains(m) {
                    repaired_ancestor(*context, nodes0[m])
                } else {
                    nodes0[m]
                },
        decreases node,
    {
        let p = doc.nodes[node].parent.unwrap();
        assert(ancestors(nodes0, node as int) == ancestors(nodes0, p as int).insert(p as int));
        proof {
            assert forall|m: int| #[trigger] ancestors(nodes0, p as int).contains(m) implies !(m == p) by {
                lemma_ancestors_before(nodes0, p as int, m);
            }
            assert forall|m: int| #[trigger] ancestors(nodes0, p as int).contains(m) implies all.contains(m) by {
                assert(ancestors(nodes0, node as int).contains(m));
            }
        }
        let mut element = doc.nodes[p];
        element.dirty_descendants = true;
        doc.nodes.set(p, element);
        construct_flows_at(context, doc, p);
        node = p;
    }
    assert(ancestors(nodes0, node as int) =~= Set::empty());
}

/// The ancestors of a node are elements.
pub proof fn lemma_ancestors_are_elements(nodes: Seq<DomNode>, n: int, m: int)
    requires
        parents_wf(nodes),
        ancestors(nodes, n).contains(m),
    ensures
        !nodes[m].is_text,
    decreases n,
{
    let p = nodes[n].parent->0 as int;
    assert(nodes[n].parent is Some);
    if m != p {
        lemma_ancestors_are_elements(nodes, p, m);
    }
}

/// The ancestors of a node number exactly its depth.
pub proof fn lemma_ancestors_count(nodes: Seq<DomNode>, n: int)
    ensures
        ancestors(nodes, n).finite(),
        ancestors(nodes, n).len() == depth(nodes, n),
    decreases n,
{
    if 0 <= n < nodes.len() && nodes[n].parent is Some && 0 <= nodes[n].parent->0 < n {
        let p = nodes[n].parent->0 as int;
        lemma_ancestors_count(nodes, p);
        if ancestors(nodes, p).contains(p) {
            lemma_ancestors_before(nodes, p, p);
        }
    }
}

/// Ancestor repair reaches the root: from a node at depth `d` it visits exactly `d`
/// ancestors, each of which goes through flow construction with its dirty-descendants
/// flag set, so each has its flow rebuilt or repaired and is marked as traversed.
pub proof fn lemma_ancestor_repair_reaches_root(context: LayoutContext, nodes: Seq<DomNode>, n: int)
    requires
        parents_wf(nodes),
    ensures
        ancestors(nodes, n).finite(),
        ancestors(nodes, n).len() == depth(nodes, n),
        forall|m: int|
            #[trigger] ancestors(nodes, n).contains(m) ==> {
                let r = repaired_ancestor(context, nodes[m]);
                &&& r.layout_data->0.has_been_traversed
                &&& r.layout_data->0.construction != Construction::Kept
            },
{
    lemma_ancestors_count(nodes, n);
    assert forall|m: int| #[trigger] ancestors(nodes, n).contains(m) implies !nodes[m].is_text by {
        lemma_ancestors_are_elements(nodes, n, m);
    }
}

/// A text node needs the combined walk when it has no layout data yet, or when its
/// parent is damaged (its flow then needs fixing up too).
pub open spec fn text_needs_traversal(node: DomNode, parent_damage: RestyleDamage) -> bool {
    node.layout_data is None || !parent_damage.is_empty_spec()
}

/// The children of an element that the walk goes on into: the text children that need
/// it, and every element child. Which element children need restyling is the style
/// driver's call; this walk notes them all and leaves the pruning to it.
pub open spec fn noted_children(nodes: Seq<DomNode>, kids: Seq<usize>, damage: RestyleDamage) -> Seq<usize>
    decreases kids.len(),
{
    if kids.len() == 0 {
        Seq::empty()
    } else {
        let c = kids.last();
        let rest = noted_children(nodes, kids.drop_last(), damage);
        if !nodes[c as int].is_text || text_needs_traversal(nodes[c as int], damage) {
            rest.push(c)
        } else {
            rest
        }
    }
}

/// A text node that already has layout data, under a parent without damage, is
/// never noted for the walk.
pub proof fn lemma_text_node_skipped(nodes: Seq<DomNode>, kids: Seq<usize>, damage: RestyleDamage, c: usize)
    requires
        nodes[c as int].is_text,
        nodes[c as int].layout_data is Some,
        damage.is_empty_spec(),
    ensures
        !noted_children(nodes, kids, damage).contains(c),
    decreases kids.len(),
{
    if kids.len() > 0 {
        lemma_text_node_skipped(nodes, kids.drop_last(), damage, c);
    }
}

/// The node once the walk has visited it in preorder: layout data attached if it had
/// none, and, for an element, the damage that style resolution computed.
pub open spec fn preordered(node: DomNode, damage: RestyleDamage) -> DomNode {
    DomNode {
        layout_data: if node.layout_data is None {
            Some(LayoutData { has_been_traversed: false, construction: Construction::Kept })
        } else {
            node.layout_data
        },
        damage: if node.is_text { node.damage } else { damage },
        ..node
    }
}

/// The traversal that restyles the document tree in preorder and builds its flows
/// in postorder, in one walk.
pub struct RecalcStyleAndConstructFlows {
    context: LayoutContext,
}

impl RecalcStyleAndConstructFlows {
    pub closed spec fn context_spec(&self) -> LayoutContext {
        self.context
    }

    /// Creates a traversal context, taking ownership of the shared layout context.
    pub fn new(context: LayoutContext) -> (r: Self)
        ensures
            r.context_spec() == context,
    {
        RecalcStyleAndConstructFlows { context }
    }

    pub fn context(&self) -> (r: &LayoutContext)
        ensures
            *r == self.context_spec(),
    {
        &self.context
    }

    /// Consumes this traversal context, returning ownership of the shared layout
    /// context to the caller.
    pub fn destroy(self) -> (r: LayoutContext)
        ensures
            r == self.context_spec(),
    {
        self.context
    }

    /// The preorder step on node `n`: attaches layout data on the first visit and,
    /// for an element, stores the damage that style resolution computed for it
    /// (`damage`) and returns the children the walk must go on into. Text nodes are
    /// never restyled and have no children to note.
    pub fn process_preorder(&self, doc: &mut Document, n: usize, damage: RestyleDamage) -> (noted: Vec<usize>)
        requires
            old(doc).wf(),
            n < old(doc).nodes@.len(),
        ensures
            final(doc).wf(),
            final(doc).children == old(doc).children,
            final(doc).nodes@ == old(doc).nodes@.update(n as int, preordered(old(doc).nodes@[n as int], damage)),
            noted@ == if old(doc).nodes@[n as int].is_text {
                Seq::empty()
            } else {
                noted_children(final(doc).nodes@, old(doc).children@[n as int]@, damage)
            },
    {
        let mut node = doc.nodes[n];
        if node.layout_data.is_none() {
            node.layout_data = Some(LayoutData { has_been_traversed: false, construction: Construction::Kept });
        }
        if node.is_text {
            doc.nodes.set(n, node);
            return Vec::new();
        }
        node.damage = damage;
        doc.nodes.set(n, node);
        let mut noted: Vec<usize> = Vec::new();
        let ghost kids = doc.children@[n as int]@;
        let count = doc.children[n].len();
        let mut k: usize = 0;
        while k < count
            invariant
                doc.wf(),
                n < doc.nodes@.len(),
                kids == doc.children@[n as int]@,
                count == kids.len(),
                0 <= k <= count,
                noted@ == noted_children(doc.nodes@, kids.take(k as int), damage),
            decreases count - k,
        {
            let c = doc.children[n][k];
            assert(kids.take(k as int + 1).drop_last() == kids.take(k as int));
            let child = &doc.nodes[c];
            if !child.is_text || text_node_needs_traversal(child, &damage) {
                noted.push(c);
            }
            k = k + 1;
        }
        assert(kids.take(count as int) == kids);
        noted
    }

    /// The postorder step on node `n`: flow construction.
    pub fn process_postorder(&self, doc: &mut Document, n: usize)
        requires
            n < old(doc).nodes@.len(),
            old(doc).nodes@[n as int].layout_data is Some,
        ensures
            final(doc).nodes@ == old(doc).nodes@.update(n as int, constructed(self.context_spec(), old(doc).nodes@[n as int])),
            final(doc).children == old(doc).children,
    {
        construct_flows_at(&self.context, doc, n);
    }
}

/// A bottom-up traversal over the document tree, which may run in parallel over
/// independent subtrees.
pub trait PostorderNodeMutTraversal {
    /// The operation to perform on node `n`.
    fn process(&mut self, doc: &mut Document, n: usize)
        requires
            old(doc).wf(),
            n < old(doc).nodes@.len(),
    ;
}

/// Whether the walk must visit the text node `node` under a parent with `parent_damage`.
pub fn text_node_needs_traversal(node: &DomNode, parent_damage: &RestyleDamage) -> (r: bool)
    ensures
        r == text_needs_traversal(*node, *parent_damage),
{
    node.layout_data.is_none() || !parent_damage.is_empty()
}

} // verus!
