//! The tray: its menu, its tooltip, and what its dialogs decide. Drawing them
//! is left to the platform.
pub mod facts;
pub mod menu;
pub mod remove_dialog;
pub mod settings_dialog;
pub mod tooltip;
pub mod tray;
pub mod update_dialog;
pub mod youtube_tools;
