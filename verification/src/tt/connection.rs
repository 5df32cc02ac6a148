//! Setting the TeamTalk client up: in which order, what fails, and which
//! channel is joined. The client itself is the caller's.
use vstd::prelude::*;
use vstd::string::*;

use crate::error::{BotError, ErrorView};

verus! {

/// Virtual sound device, for audio that is injected.
pub const VIRTUAL_DEVICE_ID: i32 = 1978;

/// The channel that is always there.
pub const ROOT_CHANNEL: i32 = 1;

/// How often and how long apart the client reconnects, in seconds.
pub const RECONNECT_ATTEMPTS: u32 = 10;

pub const RECONNECT_MIN_DELAY_SECS: u64 = 2;

pub const RECONNECT_MAX_DELAY_SECS: u64 = 30;

/// How long the channels may take to arrive after a login, in milliseconds.
pub const CHANNEL_WAIT_MS: u64 = 3000;

/// What is done to set the client up.
#[derive(Debug, Clone, Copy, PartialEq, Eq, Structural)]
pub enum SetupStage {
    Create,
    Connect,
    /// Until the server answers.
    Wait,
    Login,
    InputDevice,
    OutputDevice,
}

pub open spec fn setup_failure(stage: SetupStage, text: Seq<char>) -> ErrorView {
    ErrorView::TeamTalk(
        match stage {
            SetupStage::Create => "Failed to create client: "@ + text,
            SetupStage::Connect => "Connection failed: "@ + text,
            SetupStage::Wait => "Connection timeout"@,
            SetupStage::Login => "Login failed: "@ + text,
            SetupStage::InputDevice => "Failed to init virtual input device"@,
            SetupStage::OutputDevice => "Failed to init virtual output device"@,
        },
    )
}

/// The error for a stage that failed.
pub fn setup_error(stage: SetupStage, text: &str) -> (r: BotError)
    ensures
        r@ == setup_failure(stage, text@),
{
    let label = match stage {
        SetupStage::Create => "Failed to create client: ",
        SetupStage::Connect => "Connection failed: ",
        SetupStage::Login => "Login failed: ",
        SetupStage::Wait => {
            return BotError::TeamTalk(String::from_str("Connection timeout"));
        },
        SetupStage::InputDevice => {
            return BotError::TeamTalk(String::from_str("Failed to init virtual input device"));
        },
        SetupStage::OutputDevice => {
            return BotError::TeamTalk(String::from_str("Failed to init virtual output device"));
        },
    };
    let mut message = label.to_owned();
    message.append(text);
    BotError::TeamTalk(message)
}

/// What to do about a channel that was looked up: `found` is its number, or 0
/// where it is not (or not yet) there, `waited` how long it was looked for.
#[derive(Debug, Clone, Copy, PartialEq, Eq, Structural)]
pub enum Lookup {
    /// Look again in a moment: the server may still be sending its channels.
    Again,
    Join(i32),
}

/// What to do about a channel after so long.
pub open spec fn channel_step(found: i32, waited_ms: u64) -> Lookup {
    if found != 0 {
        Lookup::Join(found)
    } else if waited_ms < CHANNEL_WAIT_MS {
        Lookup::Again
    } else {
        Lookup::Join(ROOT_CHANNEL)
    }
}

/// Whether to look for the channel again, or which one to join. A channel that
/// does not turn up in time is replaced by the root.
pub fn join_channel(found: i32, waited_ms: u64) -> (r: Lookup)
    ensures
        r == channel_step(found, waited_ms),
{
    if found != 0 {
        Lookup::Join(found)
    } else if waited_ms < CHANNEL_WAIT_MS {
        Lookup::Again
    } else {
        Lookup::Join(ROOT_CHANNEL)
    }
}

/// A server that refuses says why, and the reason is told.
pub proof fn the_reason_of_a_refusal_is_told(stage: SetupStage, text: Seq<char>)
    requires
        stage == SetupStage::Create || stage == SetupStage::Connect || stage == SetupStage::Login,
    ensures
        setup_failure(stage, text) matches ErrorView::TeamTalk(told) && text.is_suffix_of(told),
{
    if let ErrorView::TeamTalk(told) = setup_failure(stage, text) {
        assert(text =~= told.subrange(told.len() - text.len(), told.len() as int));
    }
}

/// A channel that is there is joined at once, whatever the time; one that is
/// not is waited for, and the root is joined in its place only once the time
/// is up.
pub proof fn a_channel_is_waited_for(found: i32, waited_ms: u64, later_ms: u64)
    requires
        waited_ms <= later_ms,
    ensures
        found != 0 ==> channel_step(found, waited_ms) == Lookup::Join(found),
        channel_step(0, waited_ms) is Join ==> channel_step(0, waited_ms) == Lookup::Join(
            ROOT_CHANNEL,
        ) && channel_step(0, later_ms) == channel_step(0, waited_ms),
        channel_step(0, 0) == Lookup::Again,
        channel_step(0, CHANNEL_WAIT_MS) is Join,
{
}

} // verus!
