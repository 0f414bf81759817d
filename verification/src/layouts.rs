//! The axis solver and the layouts built on it.

pub mod canvas_layout;
pub mod grid_laws;
pub mod grid_layout;
pub mod grid_model;
pub mod item;
pub mod laws;
pub mod lemmas;
pub mod linear_layout;
pub mod model;
pub mod proportional;
pub mod solver;
pub mod sums;
pub mod uniform;

pub use canvas_layout::CanvasLayout;
pub use grid_layout::GridLayout;
pub use item::Item;
pub use linear_layout::LinearLayoutDirection;
pub use solver::Layout;
pub use solver::Score;
