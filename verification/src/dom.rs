//! The retained tree: node slots, attribute caches, keyed lists, and the
//! record of platform operations that keeps the display in step with them.

pub mod attributes;
pub mod copy;
pub mod document;
pub mod element;
pub mod keyed_list;
pub mod nodes;
pub mod old_elements;
pub mod order;
