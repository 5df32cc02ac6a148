//! The bots as the tray shows them.
pub mod config_dialog;
pub mod manager;
pub mod progress;
pub mod tray;
