//! Positioned visual elements: leaf text, bordered rectangles and plain
//! groups, composed into a tree drawn into a [`crate::Buffer`].

pub mod container;
pub mod node;
pub mod rectangle;
pub mod text;

pub use container::Container;
pub use node::Element;
pub use rectangle::Rectangle;
pub use text::Text;
