//! An editable text buffer for a single moving cursor.
//!
//! The text is kept as a committed array of characters and a typing window of
//! pending characters that supersedes a range of that array. [`layout::Layout`]
//! is the mathematical model of that arrangement, [`buffer::GapBuffer`] is the
//! executable buffer, and [`laws`] holds what is proved of the model.

pub mod buffer;
pub mod laws;
pub mod layout;

pub use buffer::GapBuffer;
pub use layout::{Edit, Layout};
