//! Verified core of a personal todo list with four life sections, dated
//! daily boards and a general backlog.

pub mod model;
pub mod text;
pub mod date;
pub mod daily;
pub mod listing;
pub mod todos;
pub mod client;
pub mod forms;
