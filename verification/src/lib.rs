//! Typed, view-bound interface elements, a type-erased handle that drives them
//! through a layout pass and a paint pass, and a layout record that remembers
//! the geometry the engine solved for it.
pub mod context;
pub mod element;
pub mod geometry;
pub mod layout;
pub mod parent;
pub mod solved;

pub use context::PaintContext;
pub use element::{AnyElement, Element, IntoAny, StatefulElement, Step};
pub use geometry::{EngineLayout, LayoutId, RectF};
pub use layout::Layout;
pub use parent::{IntoElement, ParentElement};
pub use solved::SolvedGeometry;
