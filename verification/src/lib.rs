//! The state behind a small to-do list: entries that live in a container
//! under generation-checked handles, a list that owns them and listens for
//! their removal signals, a draft editor, and the controller that turns a
//! submitted draft into a new entry.

pub mod app;
pub mod arena;
pub mod context;
pub mod editor;
pub mod item;
pub mod laws;
pub mod list;
