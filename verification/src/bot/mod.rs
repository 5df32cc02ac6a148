//! The bot itself: what it plays, what it is told, what it answers.
pub mod cache;
pub mod commands;
pub mod laws;
pub mod queue;
pub mod replies;
pub mod runner;
pub mod state;
