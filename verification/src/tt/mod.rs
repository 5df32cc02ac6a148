//! The TeamTalk side.
pub mod connection;
