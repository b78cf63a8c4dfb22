//! What the operations of this library are for, stated of every input.

pub mod connections;
pub mod frames;
pub mod lines;
pub mod messages;
pub mod multiplexing;
pub mod options;
pub mod texts;
pub mod workspaces;
