//! Core logic of a Discord voice-activity and todo-list bot: schedules,
//! deadlines, voice sessions, todo-list rendering and report texts.

pub mod weekday;
pub mod text;
pub mod schedule;
pub mod clock;
pub mod deadline;
pub mod todo;
pub mod sessions;
pub mod interactions;
pub mod replies;
pub mod changelog;
