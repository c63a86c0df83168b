//! A verified task list: tasks with ids, a store that adds, lists, completes,
//! deletes and clears them, and the text shown for each outcome.

pub mod clock;
pub mod command;
pub mod laws;
pub mod model;
pub mod render;
pub mod store;
pub mod task;
