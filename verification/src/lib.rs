//! Decision logic of a TeamTalk music bot: the play queue, the command
//! language, recovery, configuration and the tray menu, each with a contract.
pub mod audio;
pub mod audio_cache;
pub mod bot;
pub mod cli;
pub mod config;
pub mod control;
pub mod error;
pub mod gui;
pub mod gui_native;
pub mod hints;
pub mod i18n;
pub mod logging;
pub mod paths;
pub mod player;
pub mod runlock;
pub mod service;
pub mod services;
pub mod settings;
pub mod spotify;
pub mod text;
pub mod track;
pub mod tt;
pub mod wizard;
