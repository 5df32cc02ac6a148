//! Service-agnostic media player trait.
//!
//! Every service's player implements this so the runner can drive any of them
//! through one interface. The audio sink is shared: the implementations push
//! 44.1k stereo PCM into the one channel that the audio pipeline consumes.
use vstd::prelude::*;

use crate::services::Service;

verus! {

pub trait MediaPlayer: Send + Sync {
    /// Load and start playing the given service-specific URI.
    fn load(&self, uri: &str);

    /// Resume playback.
    fn play(&self);

    /// Pause playback (preserve position).
    fn pause(&self);

    /// Stop playback and release any held resources.
    fn stop(&self);

    /// Seek to absolute position in milliseconds.
    fn seek(&self, position_ms: u32);

    /// Hint the player to begin fetching the given URI in the background.
    /// Implementations may treat this as a no-op.
    fn preload(&self, uri: &str);
}

/// Pick the player that owns a track, by the service the track came from.
///
/// Every per-track command has to route to the right player. Sending a command
/// to the wrong one is silent: the track keeps playing and the command does
/// nothing.
pub fn player_for<'a, P: ?Sized>(service: Service, spotify: &'a P, youtube: &'a P) -> (r: &'a P)
    ensures
        r == (match service {
            Service::Spotify => spotify,
            Service::YouTube => youtube,
        }),
{
    match service {
        Service::Spotify => spotify,
        Service::YouTube => youtube,
    }
}

} // verus!
