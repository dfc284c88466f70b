//! Render cursors: what a render function holds while it walks an element,
//! its attributes and its children in the order of the pass before.

pub mod element;
pub mod list;
pub mod nodes;
pub mod pass;
