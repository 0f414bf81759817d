//! Constrained space allocation for widget layouts: a weighted, cap-respecting
//! solver for one axis, and a grid that sizes its columns and rows with it.

pub mod components;
pub mod error;
pub mod events;
pub mod layouts;
pub mod painter;
