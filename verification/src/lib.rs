//! A live directory tree: the rules that turn a directory walk into a
//! box-drawn, scrollable, highlighted view, and the decisions of the loop
//! that keeps it current.

pub mod cli;
pub mod clock;
pub mod event_loop;
pub mod highlight;
pub mod render;
pub mod scroll;
pub mod terminal;
pub mod text;
pub mod title;
pub mod tree;
pub mod watcher;
