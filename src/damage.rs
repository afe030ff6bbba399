use vstd::prelude::*;

verus! {

/// The phases of layout that a node or flow must redo, one flag per phase.
#[derive(Clone, Copy, Debug, PartialEq, Eq, Structural)]
pub struct RestyleDamage {
    /// Intrinsic inline-sizes must be recomputed.
    pub bubble_isizes: bool,
    /// Sizes and positions of out-of-flow boxes must be reassigned.
    pub reflow_out_of_flow: bool,
    /// Sizes and positions of in-flow boxes must be reassigned.
    pub reflow: bool,
    /// The stacking-relative position must be recomputed.
    pub reposition: bool,
    /// The display-list entry must be regenerated.
    pub repaint: bool,
    /// The flow cannot be repaired in place and must be rebuilt.
    pub reconstruct_flow: bool,
}

impl RestyleDamage {
    /// The damage with no flag set.
    pub fn empty() -> (r: RestyleDamage)
        ensures
            r.is_empty_spec(),
    {
        RestyleDamage {
            bubble_isizes: false,
            reflow_out_of_flow: false,
            reflow: false,
            reposition: false,
            repaint: false,
            reconstruct_flow: false,
        }
    }

    pub open spec fn is_empty_spec(&self) -> bool {
        !self.bubble_isizes && !self.reflow_out_of_flow && !self.reflow && !self.reposition
            && !self.repaint && !self.reconstruct_flow
    }

    pub fn is_empty(&self) -> (r: bool)
        ensures
            r == self.is_empty_spec(),
    {
        !self.bubble_isizes && !self.reflow_out_of_flow && !self.reflow && !self.reposition
            && !self.repaint && !self.reconstruct_flow
    }

    /// Whether either of the two reflow flags is set.
    pub open spec fn needs_reflow_spec(&self) -> bool {
        self.reflow || self.reflow_out_of_flow
    }

    pub fn needs_reflow(&self) -> (r: bool)
        ensures
            r == self.needs_reflow_spec(),
    {
        self.reflow || self.reflow_out_of_flow
    }

    /// Every flag set in `self` is set in `other`.
    pub open spec fn is_within(&self, other: RestyleDamage) -> bool {
        &&& (self.bubble_isizes ==> other.bubble_isizes)
        &&& (self.reflow_out_of_flow ==> other.reflow_out_of_flow)
        &&& (self.reflow ==> other.reflow)
        &&& (self.reposition ==> other.reposition)
        &&& (self.repaint ==> other.repaint)
        &&& (self.reconstruct_flow ==> other.reconstruct_flow)
    }
}

} // verus!
