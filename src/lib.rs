//! Traversals over the document and flow trees that drive incremental layout:
//! the combined restyle and flow-construction walk, ancestor repair, the
//! damage-gated geometry walks over the flow tree, and the display-list walk.

pub mod damage;
pub mod flow;
pub mod traversal;
pub mod display_list;
pub mod dom;
pub mod laws;
