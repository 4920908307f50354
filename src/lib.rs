//! Renders example configuration snippets from a small node model.
//!
//! The core is [`util::DocStr`], a block of text that is merged vertically and
//! attached horizontally with alignment; nodes are turned into such blocks by a
//! dialect-specific [`node::formatter::NodeFormatter`].

pub mod util;
pub mod node;
pub mod generator;
