//! Building blocks shared by widgets.

pub mod hierarchy;
pub mod ident;
pub mod signal;
pub mod transform;

pub use hierarchy::Hierarchy;
pub use hierarchy::HierarchyChild;
pub use signal::Signal;
pub use signal::Slot;
pub use transform::Position;
pub use transform::Size;
pub use transform::Transform;
