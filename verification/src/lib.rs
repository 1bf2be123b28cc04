//! Core of a terminal modal text editor: a cursor-split line
//! representation of a document, the motion and edit operations on it,
//! a lazily recomputed scroll offset pair, the viewport windowing
//! sequence used for rendering, and a manager for several open buffers.
//!
//! The editor's event loop, screen painting and command line live
//! outside this crate; they drive the operations offered here and only
//! ever exchange plain values with them.

pub mod buffer;
pub mod buffers;
pub mod doc;
pub mod scroll;
pub mod text;
pub mod window;
