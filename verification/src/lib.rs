//! Overlay registry and deferred task scheduler for a VR overlay manager.
//!
//! The crate owns the set of live overlay panels, resolves references to them
//! by stable identity or by display name, and serializes structural mutations
//! (create, destroy, show, hide) through a time-ordered queue of deferred
//! tasks.  All geometry is carried in fixed-point integer coordinates so that
//! every ordering and lifecycle rule can be stated and checked exactly.

pub mod anchor;
pub mod geometry;
pub mod input;
pub mod lines;
pub mod overlay;
pub mod registry;
pub mod state;
pub mod task;
pub mod toast;
