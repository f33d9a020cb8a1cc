//! A fixed-capacity circular buffer: a bounded first-in first-out queue.
//!
//! The buffer owns its storage and tracks its state with plain integer
//! indices rather than pointers into itself, so a value of the type stays
//! valid under copy, move, return by value, or storage in any container.
//! Overflow and underflow are reported as ordinary `Full` / `Empty` results,
//! never masked and never turned into panics.

pub mod model;
pub mod ring;
