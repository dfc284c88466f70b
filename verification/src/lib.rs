//! A retained-mode rendering engine core.
//!
//! The engine keeps a persistent tree of node slots in step with application
//! state. A render pass walks the same positional structure as the pass before
//! it and records, as a list of platform operations, only what has to change.
//! The operations are plain values: whoever owns the display replays them.
//!
//! Two things the engine keeps without looking into them: the listeners that
//! are bound on an element, of a type that is called `L` throughout, and the
//! handles of mounted child components, of a type called `H`. Each is
//! dropped together with the slot that holds it.

pub mod component;
pub mod dom;
pub mod queue_render;
pub mod render;
