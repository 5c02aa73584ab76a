//! A single-user task list: the tasks and their fields, the store that owns
//! them and hands out their identifiers, and the decisions of the
//! line-oriented session that drives the store.

pub mod cli;
pub mod date;
pub mod model;
pub mod text;
pub mod todo;
