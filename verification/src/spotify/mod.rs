//! Everything about the Spotify service that is decided without the network.
pub mod account;
pub mod audio_key;
pub mod auth;
pub mod metadata;
pub mod player;
pub mod recovery;
pub mod types;
pub mod uri;
