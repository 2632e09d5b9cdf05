//! A character-grid terminal UI renderer.
//!
//! Applications build a tree of positioned visual elements (text, bordered
//! boxes, plain groups) and render them through a double-buffered compositor
//! that diffs the freshly drawn frame against the last shown one and emits a
//! minimal stream of cursor-move and print commands.

pub mod buffer;
pub mod elements;
pub mod error;
pub mod rectext;
pub mod terminal;

pub use buffer::Buffer;
pub use buffer::BufferIter;
pub use elements::{Container, Element, Rectangle, Text};
pub use rectext::Rectext;
pub use terminal::CommandSink;
pub use terminal::TerminalCommand;
pub use error::Error;
