//! The value heap of an embeddable scripting-language virtual machine:
//! the tagged runtime value type, the placement-definition protocol used to
//! construct variable-length heap objects, the traversal contract a collector
//! uses to discover live references, and the cross-generation deep clone that
//! rehomes a value graph into an older generation while preserving sharing
//! and cycles.

pub mod deep_clone;
pub mod defs;
pub mod heap;
pub mod render;
pub mod traverse;
pub mod value;
pub mod visited;
