//! What holds of the bot as a whole: from a message to what it leads to.
use vstd::prelude::*;

use crate::bot::commands::{
    clock, codes_of, command_effects, message_effects, seek_request, uptime_text, user_label,
    volume_request, with_digits, Asker, CommandView, EffectView,
};
use crate::bot::queue::{QueueEntry, QueueView, PREV_RESTART_AFTER_MS};
use crate::bot::runner::{
    batch_outcome, change_view, command_outcome, exit_actions, load_action, radio_outcome, ready,
    resolve_outcome, signal_outcome, start_outcome, starts_with, ActionView, BotExit, ChangeView,
    PlayerSignal, Processor, RadioAnswer, RunnerEventView, MAX_CONSECUTIVE_START_FAILURES,
};
use crate::bot::state::{entries_for, queue_text, PlaybackStatus, PlayerState, RepeatMode};
use crate::config::{applied, gender_for, valid_gender, BotConfig, ConfigChange};
use crate::i18n::{message, slot_value, Key};
use crate::services::Service;
use crate::spotify::metadata::{lookup_of, LookupView};
use crate::text::{all_digits, digits, is_ascii_alnum, lowercase, trimmed, unsigned};
use crate::track::Track;

verus! {

/// A command as it was typed, and by whom.
pub struct Request {
    pub asker: Asker,
    pub langs: Map<Seq<char>, Map<Seq<char>, Seq<char>>>,
    pub results: Option<Vec<Track>>,
    pub cmd: Seq<char>,
    pub args: Seq<char>,
}

impl Request {
    pub open spec fn effects(self, state: PlayerState) -> Seq<EffectView> {
        command_effects(self.asker, self.langs, state, self.results, self.cmd, self.args)
    }

    /// The command that the processor is sent first.
    pub open spec fn sends(self, state: PlayerState) -> Option<CommandView> {
        let effects = self.effects(state);
        if effects.len() > 0 {
            match effects[0] {
                EffectView::Send(command) => Some(command),
                _ => None,
            }
        } else {
            None
        }
    }

    /// Whether no command is sent and nothing set: at most something is said.
    pub open spec fn only_speaks(self, state: PlayerState) -> bool {
        forall|i: int|
            0 <= i < self.effects(state).len() ==> (#[trigger] self.effects(state)[i] is Say
                || self.effects(state)[i] is Reply)
    }

    /// Whether what is sent first leads from one state of the processor to
    /// another.
    pub open spec fn leads(
        self,
        old: Processor,
        new: Processor,
        volume: u8,
        out: Seq<ActionView>,
    ) -> bool {
        self.sends(old.state) matches Some(command) && command_outcome(
            old,
            new,
            command,
            volume,
            out,
        )
    }
}

/// How the command words are spelled.
proof fn lemma_words()
    ensures
        "p"@.len() == 1 && "p"@[0] == 'p',
        "play"@.len() == 4 && "play"@[0] == 'p' && "play"@[1] == 'l' && "play"@[2] == 'a' && "play"@[3] == 'y',
        "s"@.len() == 1 && "s"@[0] == 's',
        "stop"@.len() == 4 && "stop"@[0] == 's' && "stop"@[1] == 't' && "stop"@[2] == 'o' && "stop"@[3] == 'p',
        "n"@.len() == 1 && "n"@[0] == 'n',
        "next"@.len() == 4 && "next"@[0] == 'n' && "next"@[1] == 'e' && "next"@[2] == 'x' && "next"@[3] == 't',
        "o"@.len() == 1 && "o"@[0] == 'o',
        "prev"@.len() == 4 && "prev"@[0] == 'p' && "prev"@[1] == 'r' && "prev"@[2] == 'e' && "prev"@[3] == 'v',
        "replay"@.len() == 6 && "replay"@[0] == 'r' && "replay"@[1] == 'e' && "replay"@[2] == 'p' && "replay"@[3] == 'l' && "replay"@[4] == 'a' && "replay"@[5] == 'y',
        "rp"@.len() == 2 && "rp"@[0] == 'r' && "rp"@[1] == 'p',
        "liked"@.len() == 5 && "liked"@[0] == 'l' && "liked"@[1] == 'i' && "liked"@[2] == 'k' && "liked"@[3] == 'e' && "liked"@[4] == 'd',
        "fav"@.len() == 3 && "fav"@[0] == 'f' && "fav"@[1] == 'a' && "fav"@[2] == 'v',
        "c"@.len() == 1 && "c"@[0] == 'c',
        "current"@.len() == 7 && "current"@[0] == 'c' && "current"@[1] == 'u' && "current"@[2] == 'r' && "current"@[3] == 'r' && "current"@[4] == 'e' && "current"@[5] == 'n' && "current"@[6] == 't',
        "queue"@.len() == 5 && "queue"@[0] == 'q' && "queue"@[1] == 'u' && "queue"@[2] == 'e' && "queue"@[3] == 'u' && "queue"@[4] == 'e',
        "mode"@.len() == 4 && "mode"@[0] == 'm' && "mode"@[1] == 'o' && "mode"@[2] == 'd' && "mode"@[3] == 'e',
        "shuffle"@.len() == 7 && "shuffle"@[0] == 's' && "shuffle"@[1] == 'h' && "shuffle"@[2] == 'u' && "shuffle"@[3] == 'f' && "shuffle"@[4] == 'f' && "shuffle"@[5] == 'l' && "shuffle"@[6] == 'e',
        "search"@.len() == 6 && "search"@[0] == 's' && "search"@[1] == 'e' && "search"@[2] == 'a' && "search"@[3] == 'r' && "search"@[4] == 'c' && "search"@[5] == 'h',
        "pick"@.len() == 4 && "pick"@[0] == 'p' && "pick"@[1] == 'i' && "pick"@[2] == 'c' && "pick"@[3] == 'k',
        "radio"@.len() == 5 && "radio"@[0] == 'r' && "radio"@[1] == 'a' && "radio"@[2] == 'd' && "radio"@[3] == 'i' && "radio"@[4] == 'o',
        "link"@.len() == 4 && "link"@[0] == 'l' && "link"@[1] == 'i' && "link"@[2] == 'n' && "link"@[3] == 'k',
        "url"@.len() == 3 && "url"@[0] == 'u' && "url"@[1] == 'r' && "url"@[2] == 'l',
        "sp"@.len() == 2 && "sp"@[0] == 's' && "sp"@[1] == 'p',
        "spotify"@.len() == 7 && "spotify"@[0] == 's' && "spotify"@[1] == 'p' && "spotify"@[2] == 'o' && "spotify"@[3] == 't' && "spotify"@[4] == 'i' && "spotify"@[5] == 'f' && "spotify"@[6] == 'y',
        "yt"@.len() == 2 && "yt"@[0] == 'y' && "yt"@[1] == 't',
        "youtube"@.len() == 7 && "youtube"@[0] == 'y' && "youtube"@[1] == 'o' && "youtube"@[2] == 'u' && "youtube"@[3] == 't' && "youtube"@[4] == 'u' && "youtube"@[5] == 'b' && "youtube"@[6] == 'e',
        "jc"@.len() == 2 && "jc"@[0] == 'j' && "jc"@[1] == 'c',
        "cn"@.len() == 2 && "cn"@[0] == 'c' && "cn"@[1] == 'n',
        "gender"@.len() == 6 && "gender"@[0] == 'g' && "gender"@[1] == 'e' && "gender"@[2] == 'n' && "gender"@[3] == 'd' && "gender"@[4] == 'e' && "gender"@[5] == 'r',
        "info"@.len() == 4 && "info"@[0] == 'i' && "info"@[1] == 'n' && "info"@[2] == 'f' && "info"@[3] == 'o',
        "about"@.len() == 5 && "about"@[0] == 'a' && "about"@[1] == 'b' && "about"@[2] == 'o' && "about"@[3] == 'u' && "about"@[4] == 't',
        "lang"@.len() == 4 && "lang"@[0] == 'l' && "lang"@[1] == 'a' && "lang"@[2] == 'n' && "lang"@[3] == 'g',
        "glang"@.len() == 5 && "glang"@[0] == 'g' && "glang"@[1] == 'l' && "glang"@[2] == 'a' && "glang"@[3] == 'n' && "glang"@[4] == 'g',
        "stats"@.len() == 5 && "stats"@[0] == 's' && "stats"@[1] == 't' && "stats"@[2] == 'a' && "stats"@[3] == 't' && "stats"@[4] == 's',
        "q"@.len() == 1 && "q"@[0] == 'q',
        "quit"@.len() == 4 && "quit"@[0] == 'q' && "quit"@[1] == 'u' && "quit"@[2] == 'i' && "quit"@[3] == 't',
        "rs"@.len() == 2 && "rs"@[0] == 'r' && "rs"@[1] == 's',
        "restart"@.len() == 7 && "restart"@[0] == 'r' && "restart"@[1] == 'e' && "restart"@[2] == 's' && "restart"@[3] == 't' && "restart"@[4] == 'a' && "restart"@[5] == 'r' && "restart"@[6] == 't',
        "h"@.len() == 1 && "h"@[0] == 'h',
        "help"@.len() == 4 && "help"@[0] == 'h' && "help"@[1] == 'e' && "help"@[2] == 'l' && "help"@[3] == 'p',
        "v"@.len() == 1 && "v"@[0] == 'v',
        "volume"@.len() == 6 && "volume"@[0] == 'v' && "volume"@[1] == 'o' && "volume"@[2] == 'l' && "volume"@[3] == 'u' && "volume"@[4] == 'm' && "volume"@[5] == 'e',
        "sf"@.len() == 2 && "sf"@[0] == 's' && "sf"@[1] == 'f',
        "sb"@.len() == 2 && "sb"@[0] == 's' && "sb"@[1] == 'b',
{
    reveal_strlit("p");
    reveal_strlit("play");
    reveal_strlit("s");
    reveal_strlit("stop");
    reveal_strlit("n");
    reveal_strlit("next");
    reveal_strlit("o");
    reveal_strlit("prev");
    reveal_strlit("replay");
    reveal_strlit("rp");
    reveal_strlit("liked");
    reveal_strlit("fav");
    reveal_strlit("c");
    reveal_strlit("current");
    reveal_strlit("queue");
    reveal_strlit("mode");
    reveal_strlit("shuffle");
    reveal_strlit("search");
    reveal_strlit("pick");
    reveal_strlit("radio");
    reveal_strlit("link");
    reveal_strlit("url");
    reveal_strlit("sp");
    reveal_strlit("spotify");
    reveal_strlit("yt");
    reveal_strlit("youtube");
    reveal_strlit("jc");
    reveal_strlit("cn");
    reveal_strlit("gender");
    reveal_strlit("info");
    reveal_strlit("about");
    reveal_strlit("lang");
    reveal_strlit("glang");
    reveal_strlit("stats");
    reveal_strlit("q");
    reveal_strlit("quit");
    reveal_strlit("rs");
    reveal_strlit("restart");
    reveal_strlit("h");
    reveal_strlit("help");
    reveal_strlit("v");
    reveal_strlit("volume");
    reveal_strlit("sf");
    reveal_strlit("sb");
}

/// A word that begins neither like a volume nor like a seek command is none.
proof fn lemma_plain_word(cmd: Seq<char>, args: Seq<char>)
    requires
        cmd.len() > 0,
        cmd[0] != 'v',
        cmd[0] == 's' && cmd.len() > 1 ==> cmd[1] != 'f' && cmd[1] != 'b',
    ensures
        volume_request(cmd, args) is None,
        seek_request(cmd, args) is None,
{
    reveal_strlit("v");
    reveal_strlit("volume");
    reveal_strlit("sf");
    reveal_strlit("sb");
    if "v"@.is_prefix_of(cmd) {
        assert(cmd.subrange(0, 1)[0] == "v"@[0]);
    }
    if "sf"@.is_prefix_of(cmd) {
        assert(cmd.subrange(0, 2)[0] == "sf"@[0]);
        assert(cmd.subrange(0, 2)[1] == "sf"@[1]);
    }
    if "sb"@.is_prefix_of(cmd) {
        assert(cmd.subrange(0, 2)[0] == "sb"@[0]);
        assert(cmd.subrange(0, 2)[1] == "sb"@[1]);
    }
    assert("volume"@[0] == 'v');
    assert("v"@[0] == 'v');
    assert("sf"@[0] == 's' && "sf"@[1] == 'f');
    assert("sb"@[0] == 's' && "sb"@[1] == 'b');
}

// ---- playback ----

/// A bare `p` or `play` pauses what plays and lets go on what is paused, and
/// says nothing.
pub proof fn a_bare_play_toggles(
    request: Request,
    old: Processor,
    new: Processor,
    volume: u8,
    out: Seq<ActionView>,
)
    requires
        request.cmd == "p"@ || request.cmd == "play"@,
        request.args.len() == 0,
        old.state.status == PlaybackStatus::Playing || old.state.status == PlaybackStatus::Paused,
    ensures
        request.sends(old.state) is Some,
        request.effects(old.state).len() == 1,
        request.leads(old, new, volume, out) ==> {
            &&& old.state.status == PlaybackStatus::Playing ==> new.state.status
                == PlaybackStatus::Paused && out.contains(ActionView::PauseAudio) && !out.contains(
                ActionView::Resume,
            )
            &&& old.state.status == PlaybackStatus::Paused ==> new.state.status
                == PlaybackStatus::Playing && out.contains(ActionView::Resume) && !out.contains(
                ActionView::PauseAudio,
            )
            &&& new.state.queue == old.state.queue
            &&& new.state.position_ms == old.state.position_ms
        },
{
    lemma_words();
    lemma_plain_word(request.cmd, request.args);
    lemma_not_admin(request.cmd);
    if request.leads(old, new, volume, out) {
        assert(out.contains(out[0]));
    }
}

/// A bare `p` while nothing can be toggled only says so.
pub proof fn a_bare_play_without_music_only_speaks(request: Request, state: PlayerState)
    requires
        request.cmd == "p"@ || request.cmd == "play"@,
        request.args.len() == 0,
        state.status == PlaybackStatus::Idle || state.status == PlaybackStatus::Loading,
    ensures
        request.only_speaks(state),
        request.effects(state).len() == 1,
{
    lemma_words();
    lemma_plain_word(request.cmd, request.args);
    lemma_not_admin(request.cmd);
}

/// Stopping forgets the whole queue, silences the player, and makes whatever
/// is still being loaded in the background stale.
pub proof fn stopping_forgets_everything(
    request: Request,
    old: Processor,
    new: Processor,
    volume: u8,
    out: Seq<ActionView>,
)
    requires
        request.cmd == "s"@ || request.cmd == "stop"@,
        old.roomy(),
    ensures
        request.sends(old.state) is Some,
        request.leads(old, new, volume, out) ==> {
            &&& new.state.queue@.everything().len() == 0
            &&& new.state.status == PlaybackStatus::Idle
            &&& new.state.position_ms == 0
            &&& new.state.bulk_load_generation > old.state.bulk_load_generation
            &&& out.contains(ActionView::StopAudio)
            &&& new.state.repeat == old.state.repeat
            &&& new.state.shuffle == old.state.shuffle
            &&& new.state.search_results == old.state.search_results
        },
{
    lemma_words();
    lemma_plain_word(request.cmd, request.args);
    assert(out.len() > 0 && out[0] == ActionView::StopAudio ==> out.contains(
        ActionView::StopAudio,
    ));
}

/// Skipping plays the first track that is coming, in every mode, and the track
/// that was left is behind it.
pub proof fn skipping_plays_the_next_track(
    request: Request,
    old: Processor,
    new: Processor,
    volume: u8,
    out: Seq<ActionView>,
)
    requires
        request.cmd == "n"@ || request.cmd == "next"@,
        old.wf(),
        old.state.queue@.coming().len() > 0,
    ensures
        request.sends(old.state) is Some,
        request.leads(old, new, volume, out) ==> {
            let next = old.state.queue@.coming()[0];
            &&& new.state.queue@.current == Some(next)
            &&& new.state.queue@.coming() == old.state.queue@.coming().skip(1)
            &&& out == seq![
                ActionView::Load { service: next.track@.service(), uri: next.track@.uri() },
            ]
            &&& old.state.queue@.cap > 0 ==> Some(new.state.queue@.history.last())
                == old.state.queue@.current
        },
{
    lemma_words();
    lemma_plain_word(request.cmd, request.args);
    if request.leads(old, new, volume, out) {
        crate::bot::queue::a_skip_always_moves(
            old.state.queue@,
            new.state.queue@,
            old.state.repeat,
            old.state.shuffle,
        );
    }
}

/// Stepping back starts the current track again once it has played for a
/// while; before that it plays the latest track of the past, and the one that
/// is left comes next. Without a past nothing happens.
pub proof fn stepping_back_restarts_or_returns(
    request: Request,
    old: Processor,
    new: Processor,
    volume: u8,
    out: Seq<ActionView>,
)
    requires
        request.cmd == "o"@ || request.cmd == "prev"@,
        old.wf(),
        old.state.queue@.current is Some,
    ensures
        request.sends(old.state) is Some,
        request.leads(old, new, volume, out) ==> {
            let playing = old.state.queue@.current->0;
            let past = old.state.queue@.history;
            if old.state.position_ms > PREV_RESTART_AFTER_MS {
                &&& new.state.queue@ == old.state.queue@
                &&& new.state.position_ms == 0
                &&& out == seq![
                    ActionView::SeekTo { service: playing.track@.service(), position_ms: 0u32 },
                ]
            } else if past.len() > 0 {
                &&& new.state.queue@.current == Some(past.last())
                &&& new.state.queue@.coming() == seq![playing] + old.state.queue@.coming()
                &&& out == seq![
                    ActionView::Load {
                        service: past.last().track@.service(),
                        uri: past.last().track@.uri(),
                    },
                ]
            } else {
                &&& new.state.queue@ == old.state.queue@
                &&& out.len() == 0
            }
        },
{
    lemma_words();
    lemma_plain_word(request.cmd, request.args);
    if request.leads(old, new, volume, out) {
        let q = old.state.queue@;
        assert(q.playing() + q.next_up + q.upcoming =~= q.playing() + (q.next_up + q.upcoming));
    }
}

/// `replay` leads to the start of the track, wherever it is now.
pub proof fn a_replay_starts_over(
    request: Request,
    old: Processor,
    new: Processor,
    volume: u8,
    out: Seq<ActionView>,
)
    requires
        request.cmd == "replay"@ || request.cmd == "rp"@,
        old.state.position_ms <= 86_400_000,
    ensures
        request.sends(old.state) is Some,
        request.leads(old, new, volume, out) ==> {
            &&& new.state.position_ms == 0
            &&& new.state.queue == old.state.queue
            &&& out.len() == 1
            &&& out[0] matches ActionView::SeekTo { service, position_ms } && position_ms == 0 && (
            old.state.queue@.current matches Some(e) ==> service == e.track@.service())
        },
{
    lemma_words();
    lemma_plain_word(request.cmd, request.args);
}

/// `sf` moves forward and `sb` backward by the number of seconds that stands
/// behind them, directly or as an argument, and by ten where there is none;
/// never to before the start.
pub proof fn a_seek_moves_by_that_many_seconds(
    request: Request,
    n: nat,
    old: Processor,
    new: Processor,
    volume: u8,
    out: Seq<ActionView>,
)
    requires
        ({
            let forward = request.cmd == "sf"@ || request.cmd == "sf"@ + digits(n);
            let backward = request.cmd == "sb"@ || request.cmd == "sb"@ + digits(n);
            let bare = request.cmd == "sf"@ || request.cmd == "sb"@;
            &&& forward || backward
            &&& bare ==> request.args == digits(n) || (n == 10 && request.args.len() == 0)
        }),
        n <= 2_147_483,
        old.state.position_ms + n * 1000 <= i32::MAX,
    ensures
        request.sends(old.state) is Some,
        request.leads(old, new, volume, out) ==> {
            let at = old.state.position_ms;
            let to = if request.cmd[1] == 'f' {
                at + n * 1000
            } else if at >= n * 1000 {
                at - n * 1000
            } else {
                0
            };
            &&& new.state.position_ms == to
            &&& new.state.queue == old.state.queue
            &&& out.len() == 1
            &&& out[0] matches ActionView::SeekTo { position_ms, .. } && position_ms == to
        },
{
    lemma_words();
    crate::text::decimal_round_trip(n);
    crate::text::lemma_digits(n);
    let cmd = request.cmd;
    assert(cmd[0] == 's');
    assert(cmd[1] == 'f' || cmd[1] == 'b');
    if "v"@.is_prefix_of(cmd) {
        assert(cmd.subrange(0, 1)[0] == "v"@[0]);
    }
    assert(volume_request(cmd, request.args) is None);
    if cmd.len() == 2 {
        lemma_bare_seek(cmd, request.args);
    } else {
        lemma_seek_with_digits(cmd, digits(n));
    }
    lemma_not_admin(cmd);
}

proof fn lemma_not_admin(cmd: Seq<char>)
    requires
        cmd.len() > 0,
        cmd[0] != 'q',
        cmd[0] != 'r',
        cmd[0] != 'j',
        cmd[0] != 'g',
    ensures
        !crate::bot::commands::admin_command(cmd),
{
    lemma_words();
}

proof fn lemma_bare_seek(cmd: Seq<char>, args: Seq<char>)
    requires
        cmd == "sf"@ || cmd == "sb"@,
    ensures
        crate::bot::commands::seek_amount(cmd, args) == Some((cmd[1] == 'f', args)),
{
    lemma_words();
    assert(!with_digits(cmd, "sf"@));
    assert(!with_digits(cmd, "sb"@));
}

proof fn lemma_seek_with_digits(cmd: Seq<char>, number: Seq<char>)
    requires
        cmd == "sf"@ + number || cmd == "sb"@ + number,
        number.len() > 0,
        all_digits(number),
    ensures
        crate::bot::commands::seek_amount(cmd, ""@) == Some((cmd[1] == 'f', number)),
        forall|args: Seq<char>| #[trigger]
            crate::bot::commands::seek_amount(cmd, args) == Some((cmd[1] == 'f', number)),
{
    lemma_words();
    assert(cmd.skip(2) =~= number);
    if cmd == "sf"@ + number {
        assert(cmd.subrange(0, 2) =~= "sf"@);
        assert(with_digits(cmd, "sf"@));
    } else {
        assert(cmd.subrange(0, 2) =~= "sb"@);
        assert(with_digits(cmd, "sb"@));
        if "sf"@.is_prefix_of(cmd) {
            assert(cmd.subrange(0, 2)[1] == "sf"@[1]);
        }
    }
}

/// A volume up to the maximum is set to exactly the number that was given,
/// directly behind `v` or as an argument; above the maximum nothing is set.
pub proof fn a_volume_is_set_as_given(request: Request, n: nat, state: PlayerState)
    requires
        request.cmd == "v"@ + digits(n) || ((request.cmd == "v"@ || request.cmd == "volume"@)
            && request.args == digits(n)),
        n <= u16::MAX,
    ensures
        n <= request.asker.max_volume ==> {
            let effects = request.effects(state);
            &&& effects.len() == 3
            &&& effects[0] matches EffectView::SetVolume(to) && to == n
            &&& effects[1] matches EffectView::Send(CommandView::SetVolume { percent, .. })
                && percent == n
            &&& effects[2] matches EffectView::Say(_, args) && args.len() == 1 && unsigned(
                args[0].1,
            ) == Some(n)
        },
        n > request.asker.max_volume ==> request.only_speaks(state),
{
    lemma_words();
    crate::text::decimal_round_trip(n);
    crate::text::lemma_digits(n);
    let cmd = request.cmd;
    assert(cmd[0] == 'v');
    lemma_not_admin(cmd);
    if cmd.len() > 1 && cmd != "volume"@ {
        assert(cmd.skip(1) =~= digits(n));
        assert(cmd.subrange(0, 1) =~= "v"@);
        assert(with_digits(cmd, "v"@));
    } else if cmd == "volume"@ {
        assert(cmd.skip(1)[0] == 'o');
        assert(!with_digits(cmd, "v"@));
    } else {
        assert(!with_digits(cmd, "v"@));
    }
    assert(request.effects(state) == crate::bot::commands::volume_effects(
        request.asker,
        crate::bot::commands::VolumeParse::SetTo(n as u16),
    ));
}

// ---- modes ----

/// The message that tells of a repeat mode.
pub open spec fn told(repeat: RepeatMode) -> Key {
    match repeat {
        RepeatMode::Track => Key::ModeRepeatTrack,
        RepeatMode::Queue => Key::ModeRepeatQueue,
        RepeatMode::Off => Key::ModeOff,
    }
}

/// A repeat mode is set to the one that was named, and told by its own
/// message. Shuffle is another matter and stays.
pub proof fn a_mode_is_set_as_named(
    request: Request,
    wanted: RepeatMode,
    old: Processor,
    new: Processor,
    volume: u8,
    out: Seq<ActionView>,
)
    requires
        request.cmd == "mode"@,
        ({
            let word = trimmed(request.args);
            match wanted {
                RepeatMode::Track => word == "r"@ || word == "repeat"@,
                RepeatMode::Queue => word == "rq"@ || word == "repeat_queue"@,
                RepeatMode::Off => word == "off"@ || word == "o"@ || word == "none"@,
            }
        }),
    ensures
        request.sends(old.state) is Some,
        request.effects(old.state).len() == 2,
        request.effects(old.state)[1] matches EffectView::Say(key, _) && key == told(wanted),
        request.leads(old, new, volume, out) ==> {
            &&& new.state.repeat == wanted
            &&& new.state.shuffle == old.state.shuffle
            &&& new.state.queue == old.state.queue
            &&& out.len() == 0
        },
{
    lemma_words();
    lemma_plain_word(request.cmd, request.args);
    lemma_not_admin(request.cmd);
    reveal_strlit("r");
    reveal_strlit("repeat");
    reveal_strlit("rq");
    reveal_strlit("repeat_queue");
    reveal_strlit("off");
    reveal_strlit("none");
    assert("r"@.len() == 1 && "r"@[0] == 'r');
    assert("repeat"@.len() == 6);
    assert("rq"@.len() == 2);
    assert("repeat_queue"@.len() == 12);
    assert("off"@.len() == 3);
    assert("none"@.len() == 4);
}

/// Shuffle without an argument turns into its opposite, and with one into what
/// was said; turning it on mixes what is coming from the source and loses
/// nothing, turning it off moves nothing.
pub proof fn shuffle_turns_as_asked(
    request: Request,
    old: Processor,
    new: Processor,
    volume: u8,
    out: Seq<ActionView>,
)
    requires
        request.cmd == "shuffle"@,
        ({
            let word = lowercase(trimmed(request.args));
            word == ""@ || word == "on"@ || word == "off"@
        }),
    ensures
        request.sends(old.state) is Some,
        request.leads(old, new, volume, out) ==> {
            let word = lowercase(trimmed(request.args));
            &&& word == ""@ ==> new.state.shuffle == !old.state.shuffle
            &&& word == "on"@ ==> new.state.shuffle
            &&& word == "off"@ ==> !new.state.shuffle
            &&& new.state.repeat == old.state.repeat
            &&& new.state.queue@.current == old.state.queue@.current
            &&& new.state.queue@.next_up == old.state.queue@.next_up
            &&& new.state.queue@.upcoming.to_multiset() == old.state.queue@.upcoming.to_multiset()
            &&& !new.state.shuffle ==> new.state.queue == old.state.queue
            &&& request.effects(old.state)[1] matches EffectView::Say(key, _) && (key
                == Key::ShuffleOn) == new.state.shuffle && (key == Key::ShuffleOff)
                == !new.state.shuffle
        },
{
    lemma_words();
    lemma_plain_word(request.cmd, request.args);
    lemma_not_admin(request.cmd);
    reveal_strlit("");
    reveal_strlit("on");
    reveal_strlit("off");
    reveal_strlit("yes");
    reveal_strlit("true");
    reveal_strlit("1");
    assert("on"@.len() == 2);
    assert("off"@.len() == 3 && "off"@[0] == 'o');
    assert("yes"@.len() == 3 && "yes"@[0] == 'y');
    assert("true"@.len() == 4);
    assert("1"@.len() == 1);
}

/// Radio is turned on and off as asked, which is saved; asking for what is
/// already so changes nothing.
pub proof fn radio_turns_as_asked(
    request: Request,
    on: bool,
    old: Processor,
    new: Processor,
    volume: u8,
    out: Seq<ActionView>,
)
    requires
        request.cmd == "radio"@,
        lowercase(trimmed(request.args)) == (if on {
            "on"@
        } else {
            "off"@
        }),
        old.state.active_service == Service::Spotify,
    ensures
        old.state.radio_enabled == on ==> request.only_speaks(old.state),
        old.state.radio_enabled != on ==> request.sends(old.state) is Some,
        request.leads(old, new, volume, out) ==> {
            &&& new.state.radio_enabled == on
            &&& new.state.queue == old.state.queue
            &&& out == seq![ActionView::Save(ChangeView::Radio(on))]
        },
{
    lemma_words();
    lemma_plain_word(request.cmd, request.args);
    reveal_strlit("on");
    reveal_strlit("off");
    assert("on"@.len() == 2 && "on"@[0] == 'o' && "on"@[1] == 'n');
    assert("off"@.len() == 3 && "off"@[1] == 'f');
    let word = lowercase(trimmed(request.args));
    assert(crate::bot::commands::admin_command(request.cmd) == false);
    if on {
        assert("on"@.is_prefix_of(word)) by {
            assert(word.subrange(0, 2) =~= word);
        }
    } else {
        assert("off"@.is_prefix_of(word)) by {
            assert(word.subrange(0, 3) =~= word);
        }
        if "on"@.is_prefix_of(word) {
            assert(word.subrange(0, 2)[1] == "on"@[1]);
        }
    }
}

/// Naming a service makes it the one that is searched; the queue stays.
pub proof fn a_named_service_is_switched_to(
    request: Request,
    wanted: Service,
    old: Processor,
    new: Processor,
    volume: u8,
    out: Seq<ActionView>,
)
    requires
        match wanted {
            Service::Spotify => request.cmd == "sp"@ || request.cmd == "spotify"@,
            Service::YouTube => request.cmd == "yt"@ || request.cmd == "youtube"@,
        },
    ensures
        old.state.active_service == wanted ==> request.only_speaks(old.state),
        old.state.active_service != wanted ==> request.sends(old.state) is Some,
        request.leads(old, new, volume, out) ==> {
            &&& new.state.active_service == wanted
            &&& new.state.queue == old.state.queue
            &&& new.state.status == old.state.status
        },
{
    lemma_words();
    lemma_plain_word(request.cmd, request.args);
    lemma_not_admin(request.cmd);
}

// ---- asking for tracks ----

/// Playing something looks for exactly what was typed, at the service that is
/// active, for the user who asked.
pub proof fn playing_looks_for_what_was_typed(
    request: Request,
    old: Processor,
    new: Processor,
    volume: u8,
    out: Seq<ActionView>,
)
    requires
        request.cmd == "p"@ || request.cmd == "play"@,
        request.args.len() > 0,
    ensures
        request.sends(old.state) is Some,
        request.leads(old, new, volume, out) ==> {
            &&& new == old
            &&& out == seq![
                ActionView::Resolve {
                    service: old.state.active_service,
                    query: request.args,
                    limit: old.search_limit,
                    user_id: request.asker.user_id,
                    user_name: user_label(request.asker.user_id),
                },
            ]
        },
{
    lemma_words();
    lemma_plain_word(request.cmd, request.args);
    lemma_not_admin(request.cmd);
}

/// Searching looks for exactly what was typed, at the service that is active,
/// and plays nothing.
pub proof fn searching_looks_for_what_was_typed(
    request: Request,
    old: Processor,
    new: Processor,
    volume: u8,
    out: Seq<ActionView>,
)
    requires
        request.cmd == "search"@,
        request.args.len() > 0,
    ensures
        request.sends(old.state) is Some,
        request.leads(old, new, volume, out) ==> {
            &&& new == old
            &&& out == seq![
                ActionView::Search {
                    service: old.state.active_service,
                    query: request.args,
                    limit: old.search_limit,
                    user_id: request.asker.user_id,
                },
            ]
        },
{
    lemma_words();
    lemma_plain_word(request.cmd, request.args);
    lemma_not_admin(request.cmd);
}

/// A bare number picks the result that is listed with it: it is the same as
/// `pick` with that number, and the first result has the number one.
pub proof fn a_bare_number_picks(request: Request, text: Seq<char>, n: nat, state: PlayerState)
    requires
        request.cmd == "pick"@,
        request.args == digits(n),
        0 < n <= usize::MAX,
        crate::bot::commands::classified(text) == crate::bot::commands::InputView::Number(
            n as usize,
        ),
    ensures
        request.sends(state) matches Some(CommandView::SearchPick { user_id, pick, user_name })
            && user_id == request.asker.user_id && pick + 1 == n && user_name == user_label(
            request.asker.user_id,
        ),
        message_effects(request.asker, request.langs, state, request.results, false, text)
            == request.effects(state),
{
    lemma_words();
    lemma_plain_word(request.cmd, request.args);
    lemma_not_admin(request.cmd);
    crate::text::decimal_round_trip(n);
    crate::text::lemma_digits(n);
    let d = digits(n);
    assert(crate::text::is_digit(d[0]));
    assert(crate::text::is_digit(d[d.len() - 1]));
    crate::text::nothing_to_trim(d);
}

// ---- the queue ----

/// Clearing the queue leaves what plays and what has played, and makes
/// whatever is still being loaded in the background stale.
pub proof fn clearing_leaves_what_plays(
    request: Request,
    old: Processor,
    new: Processor,
    volume: u8,
    out: Seq<ActionView>,
)
    requires
        request.cmd == "queue"@,
        request.args == "clear"@,
        old.roomy(),
    ensures
        request.sends(old.state) is Some,
        request.leads(old, new, volume, out) ==> {
            &&& new.state.queue@.coming().len() == 0
            &&& new.state.queue@.current == old.state.queue@.current
            &&& new.state.queue@.history == old.state.queue@.history
            &&& new.state.status == old.state.status
            &&& new.state.bulk_load_generation > old.state.bulk_load_generation
            &&& out.len() == 0
        },
{
    lemma_words();
    lemma_plain_word(request.cmd, request.args);
    assert(!crate::bot::commands::admin_command(request.cmd));
    assert(request.args.subrange(0, request.args.len() as int) =~= request.args);
}

/// Removing by number takes the track that the listing shows with it, names
/// that track, and leaves the others in their order. A number that is not
/// shown removes nothing.
pub proof fn removing_takes_the_numbered_track(
    request: Request,
    n: nat,
    old: Processor,
    new: Processor,
    volume: u8,
    out: Seq<ActionView>,
)
    requires
        request.cmd == "queue"@,
        request.args == "rm "@ + digits(n),
        n <= usize::MAX,
        old.wf(),
    ensures
        1 <= n <= old.state.queue@.coming().len() ==> {
            let gone = old.state.queue@.coming()[n - 1];
            &&& request.sends(old.state) is Some
            &&& request.effects(old.state).len() == 2
            &&& request.effects(old.state)[1] matches EffectView::Say(_, args) && args.len() == 1
                && args[0].1 == gone.track@.display_name()
            &&& request.leads(old, new, volume, out) ==> {
                &&& new.state.queue@.coming() == old.state.queue@.coming().remove(n - 1)
                &&& new.state.queue@.current == old.state.queue@.current
                &&& new.state.queue@.history == old.state.queue@.history
            }
        },
        !(1 <= n <= old.state.queue@.coming().len()) ==> request.only_speaks(old.state),
{
    lemma_words();
    lemma_plain_word(request.cmd, request.args);
    assert(!crate::bot::commands::admin_command(request.cmd));
    reveal_strlit("rm ");
    reveal_strlit("rm");
    reveal_strlit("clear");
    crate::text::decimal_round_trip(n);
    crate::text::lemma_digits(n);
    let args = request.args;
    let d = digits(n);
    assert(args[0] == 'r');
    if "clear"@.is_prefix_of(args) {
        assert(args.subrange(0, 5)[0] == "clear"@[0]);
    }
    assert(args.subrange(0, 2) =~= "rm"@);
    let rest = args.skip(2);
    assert(rest =~= seq![' '] + d);
    lemma_one_space(d);
    if 1 <= n <= old.state.queue@.coming().len() {
        crate::bot::queue::removal_goes_by_the_numbers_shown(old.state.queue@, n as int);
    }
}

proof fn lemma_one_space(d: Seq<char>)
    requires
        d.len() > 0,
        all_digits(d),
    ensures
        trimmed(seq![' '] + d) == d,
{
    let s = seq![' '] + d;
    assert(crate::text::is_digit(d[0]));
    assert(crate::text::is_digit(d[d.len() - 1]));
    assert(s.skip(1) =~= d);
    assert(crate::text::leading_white(d) == 0);
    assert(crate::text::leading_white(s) == 1);
    assert(d.last() == d[d.len() - 1]);
    assert(crate::text::trailing_white(d) == 0);
    assert(d.take(d.len() as int) =~= d);
}

// ---- managing the bot ----

/// A new nickname is the text that was given, whole.
pub proof fn a_nickname_is_taken_as_given(
    request: Request,
    old: Processor,
    new: Processor,
    volume: u8,
    out: Seq<ActionView>,
)
    requires
        request.cmd == "cn"@,
        request.args.len() > 0,
    ensures
        request.sends(old.state) is Some,
        request.leads(old, new, volume, out) ==> new == old && out == seq![
            ActionView::ChangeNick(request.args),
        ],
{
    lemma_words();
    lemma_plain_word(request.cmd, request.args);
    lemma_not_admin(request.cmd);
}

/// An admin sends the bot to the channel that was named; the answer goes to
/// that admin.
pub proof fn an_admin_sends_the_bot_to_a_channel(
    request: Request,
    old: Processor,
    new: Processor,
    volume: u8,
    out: Seq<ActionView>,
)
    requires
        request.cmd == "jc"@,
        request.args.len() > 0,
        request.asker.is_admin,
    ensures
        request.sends(old.state) is Some,
        request.leads(old, new, volume, out) ==> new == old && out == seq![
            ActionView::Join { path: request.args, user_id: request.asker.user_id },
        ],
{
    lemma_words();
    lemma_plain_word(request.cmd, request.args);
}

/// An admin who quits ends the bot, and one who restarts starts it again; both
/// leave it silent first.
pub proof fn an_admin_ends_the_bot(
    request: Request,
    old: Processor,
    new: Processor,
    volume: u8,
    out: Seq<ActionView>,
)
    requires
        request.cmd == "q"@ || request.cmd == "quit"@ || request.cmd == "rs"@ || request.cmd
            == "restart"@,
        request.asker.is_admin,
    ensures
        request.sends(old.state) is Some,
        request.leads(old, new, volume, out) ==> {
            &&& out.len() > 0
            &&& out[0] == ActionView::StopAudio
            &&& request.cmd[0] == 'q' ==> out.last() == ActionView::Exit(BotExit::Quit)
            &&& request.cmd[0] == 'r' ==> out.last() == ActionView::Exit(BotExit::Restart)
        },
{
    lemma_words();
    lemma_plain_word(request.cmd, request.args);
}

/// What was set when the bot ended is set when it starts again: the modes, the
/// radio, and the volume as far as the maximum allows.
pub proof fn settings_survive_a_restart(
    state: PlayerState,
    volume: u8,
    reason: BotExit,
    change: ConfigChange,
    before: BotConfig,
    after: BotConfig,
    again: PlayerState,
)
    requires
        exit_actions(state, volume, reason).contains(ActionView::Save(change_view(change))),
        applied(before, after, change),
        starts_with(after, again),
    ensures
        again.repeat == state.repeat,
        again.shuffle == state.shuffle,
        again.radio_enabled == state.radio_enabled,
        after.volume == volume,
        after.max_volume == before.max_volume,
        after.default_service == before.default_service,
{
    let actions = exit_actions(state, volume, reason);
    let i = choose|i: int|
        0 <= i < actions.len() && actions[i] == ActionView::Save(change_view(change));
    assert(i == 3);
}

/// The exit of the bot saves once what is to survive it.
pub proof fn an_exit_saves_the_settings(state: PlayerState, volume: u8, reason: BotExit)
    ensures
        exists|i: int|
            0 <= i < exit_actions(state, volume, reason).len() && #[trigger] exit_actions(
                state,
                volume,
                reason,
            )[i] is Save,
        exit_actions(state, volume, reason).last() == ActionView::Exit(reason),
{
    assert(exit_actions(state, volume, reason)[3] is Save);
}

/// A default language can only be one that is loaded, and only an admin sets
/// it.
pub proof fn a_default_language_is_a_loaded_one(
    request: Request,
    old: Processor,
    new: Processor,
    volume: u8,
    out: Seq<ActionView>,
)
    requires
        request.cmd == "glang"@,
        lowercase(trimmed(request.args)).len() > 0,
    ensures
        ({
            let code = lowercase(trimmed(request.args));
            let loaded = codes_of(request.asker.languages@).contains(code);
            &&& request.asker.is_admin && loaded ==> request.sends(old.state) is Some
            &&& !request.asker.is_admin || !loaded ==> request.only_speaks(old.state)
            &&& request.leads(old, new, volume, out) ==> loaded && request.asker.is_admin && new
                == old && out == seq![ActionView::SaveDefaultLanguage(code)]
        }),
{
    lemma_words();
    lemma_plain_word(request.cmd, request.args);
}

/// A user's own language can only be one that is loaded, the confirmation is
/// in that language, and `clear` gives the default back.
pub proof fn a_language_is_a_loaded_one(request: Request, state: PlayerState)
    requires
        request.cmd == "lang"@,
    ensures
        ({
            let code = lowercase(trimmed(request.args));
            let effects = request.effects(state);
            if code == "clear"@ {
                effects.len() > 0 && effects[0] == EffectView::ClearLanguage
            } else if code.len() > 0 && codes_of(request.asker.languages@).contains(code) {
                &&& effects.len() == 2
                &&& effects[0] == EffectView::SetLanguage(code)
                &&& effects[1] matches EffectView::Reply(text) && exists|
                    args: Seq<(Seq<char>, Seq<char>)>,
                | text == #[trigger] message(request.langs, code, Key::LangSet, args)
            } else {
                request.only_speaks(state)
            }
        }),
{
    lemma_words();
    lemma_plain_word(request.cmd, request.args);
    lemma_not_admin(request.cmd);
    reveal_strlit("clear");
    assert("clear"@.len() == 5);
}

/// A gender that is understood is shown and saved; any other changes nothing.
pub proof fn a_gender_is_shown_and_saved(
    request: Request,
    old: Processor,
    new: Processor,
    volume: u8,
    out: Seq<ActionView>,
)
    requires
        request.cmd == "gender"@,
    ensures
        ({
            let word = lowercase(trimmed(request.args));
            &&& valid_gender(word) ==> request.sends(old.state) is Some
            &&& !valid_gender(word) ==> request.only_speaks(old.state)
            &&& request.leads(old, new, volume, out) ==> {
                &&& new == old
                &&& out.len() == 2
                &&& out[0] matches ActionView::ShowGender { gender, .. } && gender == gender_for(
                    word,
                )
                &&& out[1] == ActionView::Save(ChangeView::Gender(word))
            }
        }),
{
    lemma_words();
    lemma_plain_word(request.cmd, request.args);
    assert(!crate::bot::commands::admin_command(request.cmd));
}

/// The link that is given for what plays, looked up again, leads to that very
/// track.
pub proof fn the_link_leads_to_what_plays(request: Request, state: PlayerState, limit: u8)
    requires
        request.cmd == "link"@ || request.cmd == "url"@,
        state.queue@.current is Some,
        ({
            let id = state.queue@.current->0.track@.id();
            id.len() > 0 && forall|k: int| 0 <= k < id.len() ==> is_ascii_alnum(#[trigger] id[k])
        }),
    ensures
        request.effects(state).len() == 1,
        request.effects(state)[0] matches EffectView::Reply(link) && (lookup_of(
            link,
            limit,
        ) matches LookupView::Track { id, .. } && id == state.queue@.current->0.track@.id()),
{
    lemma_words();
    lemma_plain_word(request.cmd, request.args);
    lemma_not_admin(request.cmd);
    let t = state.queue@.current->0.track@;
    crate::spotify::metadata::the_link_of_a_track_leads_back_to_it(t, limit);
}

/// The liked songs are asked for by one name, and only of Spotify.
pub proof fn liked_songs_are_played_from_spotify(
    request: Request,
    old: Processor,
    new: Processor,
    volume: u8,
    out: Seq<ActionView>,
)
    requires
        request.cmd == "liked"@ || request.cmd == "fav"@,
    ensures
        old.state.active_service != Service::Spotify ==> request.effects(old.state).len() == 0,
        old.state.active_service == Service::Spotify ==> request.sends(old.state) is Some,
        request.leads(old, new, volume, out) ==> new == old && out.len() == 1 && (
        out[0] matches ActionView::Resolve { service, user_id, .. } && service == Service::Spotify
            && user_id == request.asker.user_id),
{
    lemma_words();
    lemma_plain_word(request.cmd, request.args);
    lemma_not_admin(request.cmd);
}

// ---- what comes of an answer ----

/// Tracks that are found while nothing plays start to play with the first of
/// them, and the rest follow; where something plays it goes on, and they wait.
/// Only a single track may be recommended from.
pub proof fn found_tracks_play_or_wait(
    old: Processor,
    new: Processor,
    tracks: Seq<Track>,
    more: bool,
    user_id: i32,
    user_name: Seq<char>,
    out: Seq<ActionView>,
)
    requires
        old.wf(),
        tracks.len() > 0,
        resolve_outcome(old, new, tracks, more, user_id, user_name, out),
    ensures
        ({
            let first = tracks[0]@;
            let q = new.state.queue@;
            let was = old.state.queue@;
            if old.state.status == PlaybackStatus::Idle {
                &&& q.current matches Some(e) && e.track@ == first && e.requester@ == user_name
                    && e.allow_recommend == (tracks.len() == 1)
                &&& q.history.len() == 0
                &&& q.coming().len() == tracks.len() - 1
                &&& !old.state.shuffle ==> forall|i: int|
                    0 <= i < q.coming().len() ==> (#[trigger] q.coming()[i]).track@ == tracks[i
                        + 1]@
                &&& out.len() > 0
                &&& out.last() == ActionView::Load { service: first.service(), uri: first.uri() }
            } else {
                was.current is Some ==> {
                    &&& q.current == was.current
                    &&& q.history == was.history
                    &&& q.coming().len() == was.coming().len() + tracks.len()
                    &&& tracks.len() == 1 ==> q.upcoming == was.upcoming && q.next_up.drop_last()
                        == was.next_up && q.next_up.last().track@ == first
                        && q.next_up.last().requester@ == user_name
                        && q.next_up.last().allow_recommend
                    &&& tracks.len() > 1 ==> q.next_up == was.next_up
                    &&& tracks.len() > 1 && !old.state.shuffle ==> q.upcoming.take(
                        was.upcoming.len() as int,
                    ) == was.upcoming && forall|i: int|
                        0 <= i < tracks.len() ==> (#[trigger] q.upcoming[was.upcoming.len()
                            + i]).track@ == tracks[i]@ && !q.upcoming[was.upcoming.len()
                            + i].allow_recommend
                }
            }
        }),
{
    let base = ready(old.state);
    let q = new.state.queue@;
    if tracks.len() > 1 {
        let entries = choose|entries: Seq<QueueEntry>|
            #![trigger entries_for(tracks, user_name, false, entries)]
            entries_for(tracks, user_name, false, entries) && ({
                let filled = base.with_source(entries);
                if old.state.shuffle {
                    filled.shuffled_to(q)
                } else {
                    q == filled
                }
            });
        assert(entries[0].track == tracks[0]);
        if old.state.status == PlaybackStatus::Idle {
            assert(base.upcoming + entries =~= entries);
            assert(!old.state.shuffle ==> q.coming() =~= entries.skip(1));
        } else if base.current is Some {
            assert(!old.state.shuffle ==> q.upcoming =~= base.upcoming + entries);
        }
    } else {
        let entry = choose|entry: QueueEntry|
            {
                &&& #[trigger] entry.track@ == tracks[0]@
                &&& entry.requester@ == user_name
                &&& entry.allow_recommend
                &&& q == base.with_pick(entry)
            };
        if old.state.status == PlaybackStatus::Idle {
            assert(base.next_up.push(entry).skip(1) =~= seq![]);
        } else if base.current is Some {
            assert(q.next_up.drop_last() =~= base.next_up);
        }
    }
}

/// A track whose load is confirmed is counted and announced, and the one who
/// asked is told; nothing is then waited for any more.
pub proof fn a_confirmed_load_is_announced(old: Processor, new: Processor, out: Seq<ActionView>)
    requires
        old.pending is Some,
        old.roomy(),
        start_outcome(old, new, true, out),
    ensures
        ({
            let p = old.pending->0;
            &&& new.pending is None
            &&& new.failures == 0
            &&& new.state.tracks_played == old.state.tracks_played + 1
            &&& new.state.queue == old.state.queue
            &&& p.user_id > 0 ==> out.contains(
                ActionView::Reply { user_id: p.user_id, text: p.says@ },
            )
            &&& out.contains(ActionView::Report(RunnerEventView::Playing(p.name@)))
        }),
{
    let p = old.pending->0;
    let k = if p.user_id > 0 {
        1int
    } else {
        0int
    };
    assert(p.user_id > 0 ==> out[0] == ActionView::Reply { user_id: p.user_id, text: p.says@ });
    assert(out[k + 1] == ActionView::Report(RunnerEventView::Playing(p.name@)));
}

/// A refused load is skipped: it asks for the track after it, and that is
/// loaded where there is one, as long as not too many were refused in a row.
pub proof fn a_refused_load_is_skipped(
    old: Processor,
    refused: Processor,
    out: Seq<ActionView>,
    new: Processor,
    then: Seq<ActionView>,
    volume: u8,
)
    requires
        old.wf(),
        old.pending is Some,
        old.failures + 1 < MAX_CONSECUTIVE_START_FAILURES,
        old.state.queue@.current matches Some(e) && e.track@.uri() == old.pending->0.uri@,
        old.state.queue@.coming().len() > 0,
        old.state.repeat != RepeatMode::Track,
        start_outcome(old, refused, false, out),
    ensures
        exists|i: int, command: CommandView|
            0 <= i < out.len() && #[trigger] out[i] == ActionView::Enqueue(command) && (
            #[trigger] command_outcome(refused, new, command, volume, then) ==> then == seq![
                load_action(old.state.queue@.coming()[0].track@),
            ]),
{
    let p = old.pending->0;
    let command = CommandView::Next { user_id: 0i32, after_track: Some(p.uri@) };
    let k = if p.user_id > 0 {
        1int
    } else {
        0int
    };
    assert(out[k] == ActionView::Enqueue(command));
    assert(refused.state.queue@ == old.state.queue@);
    let q = old.state.queue@;
    assert(q.advanced(old.state.repeat, true).current == Some(q.coming()[0]));
    assert(command_outcome(refused, new, command, volume, then) ==> then == seq![
        load_action(q.coming()[0].track@),
    ]);
}

/// The end of the track that plays leads, through the one advance that it asks
/// for, to the track that comes next.
pub proof fn the_end_of_a_track_leads_to_the_next(
    old: Processor,
    ended: Processor,
    signal: PlayerSignal,
    out: Seq<ActionView>,
    new: Processor,
    then: Seq<ActionView>,
    volume: u8,
)
    requires
        old.wf(),
        !old.state.auto_advance_pending,
        old.state.queue@.current is Some,
        old.state.queue@.coming().len() > 0,
        old.state.repeat != RepeatMode::Track,
        signal matches PlayerSignal::EndOfTrack(uri) && (uri matches Some(u) ==> u@
            == old.state.queue@.current->0.track@.uri()),
        signal_outcome(old, ended, signal, out),
    ensures
        out.len() == 1,
        out[0] matches ActionView::Enqueue(command) && (command_outcome(
            ended,
            new,
            command,
            volume,
            then,
        ) ==> {
            &&& new.state.queue@.current == Some(old.state.queue@.coming()[0])
            &&& then == seq![load_action(old.state.queue@.coming()[0].track@)]
            &&& !new.state.auto_advance_pending
        }),
{
    let q = old.state.queue@;
    assert(q.advanced(old.state.repeat, true).current == Some(q.coming()[0]));
}

/// What the player says of itself is taken over as it is.
pub proof fn the_player_is_believed(
    old: Processor,
    new: Processor,
    signal: PlayerSignal,
    out: Seq<ActionView>,
)
    requires
        signal_outcome(old, new, signal, out),
    ensures
        signal matches PlayerSignal::Playing(at) ==> new.state.status == PlaybackStatus::Playing
            && new.state.position_ms == at,
        signal matches PlayerSignal::Paused(at) ==> new.state.status == PlaybackStatus::Paused
            && new.state.position_ms == at,
        signal matches PlayerSignal::Position(at) ==> new.state.status == old.state.status
            && new.state.position_ms == at,
        new.state.queue == old.state.queue,
        new.state.repeat == old.state.repeat,
{
}

/// Of several changes of the volume in a row only the first asks for a save.
pub proof fn the_volume_is_saved_once(
    a: Processor,
    b: Processor,
    c: Processor,
    percent: u8,
    percent2: u8,
    user_id: i32,
    volume: u8,
    out: Seq<ActionView>,
    out2: Seq<ActionView>,
)
    requires
        !a.volume_unsaved,
        command_outcome(a, b, CommandView::SetVolume { percent, user_id }, volume, out),
        command_outcome(b, c, CommandView::SetVolume { percent: percent2, user_id }, volume, out2),
    ensures
        out == seq![ActionView::SaveVolumeLater],
        out2.len() == 0,
        c.state == a.state,
{
}

/// A batch of a background load that is still wanted is queued behind what is
/// there, in its order, and starts to play where nothing did.
pub proof fn a_wanted_batch_is_queued(
    old: Processor,
    new: Processor,
    tracks: Seq<Track>,
    requester: Seq<char>,
    out: Seq<ActionView>,
)
    requires
        old.wf(),
        tracks.len() > 0,
        !old.state.shuffle,
        batch_outcome(old, new, old.state.bulk_load_generation, tracks, requester, out),
    ensures
        ({
            let was = old.state.queue@.playing() + old.state.queue@.coming();
            let line = new.state.queue@.playing() + new.state.queue@.coming();
            &&& line.len() == was.len() + tracks.len()
            &&& line.take(was.len() as int) == was
            &&& forall|i: int|
                0 <= i < tracks.len() ==> (#[trigger] line[was.len() + i]).track@ == tracks[i]@
                    && line[was.len() + i].requester@ == requester && !line[was.len()
                    + i].allow_recommend
            &&& (old.state.queue@.current is None) == out.contains(
                ActionView::Enqueue(CommandView::StartCurrent),
            )
        }),
{
    let base = old.state.queue@;
    let q = new.state.queue@;
    let entries = choose|entries: Seq<QueueEntry>|
        #![trigger entries_for(tracks, requester, false, entries)]
        entries_for(tracks, requester, false, entries) && q == (QueueView {
            upcoming: base.upcoming + entries,
            ..base
        }).started();
    let was = base.playing() + base.coming();
    let line = q.playing() + q.coming();
    if base.current is None {
        assert(base.upcoming + entries =~= entries);
        assert(seq![entries[0]] + entries.skip(1) =~= entries);
        assert(out[0] == ActionView::Enqueue(CommandView::StartCurrent));
    }
    assert(line =~= was + entries);
    assert(line.take(was.len() as int) =~= was);
    assert forall|i: int| 0 <= i < tracks.len() implies (#[trigger] line[was.len() + i]).track@
        == tracks[i]@ && line[was.len() + i].requester@ == requester && !line[was.len()
        + i].allow_recommend by {
        assert(line[was.len() + i] == entries[i]);
    }
}

// ---- what is told on request ----

/// Whoever asks what plays is told its name, which of how many it is, and how
/// far it is; nothing else happens.
pub proof fn what_plays_is_told(request: Request, state: PlayerState)
    requires
        request.cmd == "c"@ || request.cmd == "current"@,
    ensures
        request.effects(state).len() == 1,
        request.only_speaks(state),
        state.queue@.current matches Some(entry) ==> request.effects(state)[0] matches EffectView::Say(
            _,
            args,
        ) && slot_value(args, "track"@) == Some(entry.track@.display_name()) && slot_value(
            args,
            "index"@,
        ) == Some(digits(state.queue@.place().0)) && slot_value(args, "total"@) == Some(
            digits(state.queue@.place().1),
        ) && slot_value(args, "position"@) == Some(clock(state.position_ms as nat / 1000))
            && slot_value(args, "duration"@) == Some(entry.track@.duration_display()),
{
    lemma_words();
    lemma_plain_word(request.cmd, request.args);
    lemma_not_admin(request.cmd);
    if let Some(entry) = state.queue@.current {
        reveal_strlit("track");
        reveal_strlit("index");
        reveal_strlit("total");
        reveal_strlit("position");
        reveal_strlit("duration");
        reveal_with_fuel(slot_value, 6);
        assert("track"@.len() == 5 && "track"@[1] == 'r');
        assert("index"@.len() == 5 && "index"@[1] == 'n');
        assert("total"@.len() == 5 && "total"@[1] == 'o');
        assert("position"@.len() == 8 && "position"@[0] == 'p');
        assert("duration"@.len() == 8 && "duration"@[0] == 'd');
    }
}

/// Whoever asks for the statistics is told how long the bot has run, how much
/// it has played, how much is waiting and how loud it is.
pub proof fn the_statistics_are_told(request: Request, state: PlayerState)
    requires
        request.cmd == "stats"@,
    ensures
        request.only_speaks(state),
        request.effects(state).len() == 1,
        request.effects(state)[0] matches EffectView::Say(_, args) && slot_value(args, "uptime"@)
            == Some(uptime_text(request.asker.uptime_secs as nat)) && slot_value(args, "tracks"@)
            == Some(digits(state.tracks_played as nat)) && slot_value(args, "queue"@) == Some(
            digits(state.queue@.coming().len()),
        ) && slot_value(args, "volume"@) == Some(digits(request.asker.volume as nat)),
{
    lemma_words();
    lemma_plain_word(request.cmd, request.args);
    lemma_not_admin(request.cmd);
    reveal_strlit("uptime");
    reveal_strlit("tracks");
    reveal_strlit("queue");
    reveal_strlit("volume");
    reveal_with_fuel(slot_value, 5);
    assert("uptime"@.len() == 6 && "uptime"@[0] == 'u');
    assert("tracks"@.len() == 6 && "tracks"@[0] == 't');
    assert("queue"@.len() == 5);
    assert("volume"@.len() == 6 && "volume"@[0] == 'v');
}

/// Whoever asks for the volume without a number is told what it is and how
/// loud it may be, and whoever asks for too much how loud it may be; neither
/// changes it.
pub proof fn the_volume_is_told(request: Request, n: nat, state: PlayerState)
    requires
        request.cmd == "v"@ || request.cmd == "volume"@,
        request.args.len() == 0 || (request.args == digits(n) && request.asker.max_volume < n
            <= u16::MAX),
    ensures
        request.effects(state).len() == 1,
        request.effects(state)[0] matches EffectView::Say(_, args) && slot_value(args, "max"@)
            == Some(digits(request.asker.max_volume as nat)) && (request.args.len() == 0
            ==> slot_value(args, "percent"@) == Some(digits(request.asker.volume as nat))) && (
        request.args.len() > 0 ==> slot_value(args, "got"@) == Some(digits(n))),
{
    lemma_words();
    lemma_not_admin(request.cmd);
    crate::text::decimal_round_trip(n);
    crate::text::lemma_digits(n);
    reveal_strlit("max");
    reveal_strlit("got");
    reveal_strlit("percent");
    assert("max"@[0] == 'm' && "max"@.len() == 3);
    assert("got"@[0] == 'g');
    assert("percent"@.len() == 7);
    reveal_with_fuel(slot_value, 3);
    let cmd = request.cmd;
    if cmd == "volume"@ {
        assert(cmd.skip(1)[0] == 'o');
    }
    assert(!with_digits(cmd, "v"@));
    if request.args.len() == 0 {
        assert(unsigned(request.args) is None);
    }
}

/// Whoever asks for the queue without more is shown it, and nothing changes.
pub proof fn the_queue_is_shown(request: Request, state: PlayerState)
    requires
        request.cmd == "queue"@,
        request.args.len() == 0,
    ensures
        request.effects(state) == seq![EffectView::Reply(queue_text(state.queue@))],
{
    lemma_words();
    lemma_plain_word(request.cmd, request.args);
    assert(!crate::bot::commands::admin_command(request.cmd));
    reveal_strlit("clear");
    reveal_strlit("rm");
    assert("clear"@.len() == 5);
    assert("rm"@.len() == 2);
}

/// Whoever asks about the bot is told its version.
pub proof fn the_version_is_told(request: Request, state: PlayerState)
    requires
        request.cmd == "info"@ || request.cmd == "about"@,
    ensures
        request.effects(state).len() == 1,
        request.effects(state)[0] == EffectView::Say(
            Key::Info,
            seq![("version"@, request.asker.version@)],
        ),
{
    lemma_words();
    lemma_plain_word(request.cmd, request.args);
    lemma_not_admin(request.cmd);
    reveal_with_fuel(slot_value, 2);
}

/// Help on anything only speaks.
pub proof fn help_only_speaks(request: Request, state: PlayerState)
    requires
        request.cmd == "h"@ || request.cmd == "help"@,
    ensures
        request.only_speaks(state),
        request.args.len() == 0 ==> request.effects(state).len() == 1,
{
    lemma_words();
    lemma_plain_word(request.cmd, request.args);
    lemma_not_admin(request.cmd);
}

/// A message that is empty, and a zero, lead to nothing; a cancelling word is
/// answered only where there was something to cancel.
pub proof fn some_messages_lead_to_nothing(
    request: Request,
    text: Seq<char>,
    cancelled: bool,
    state: PlayerState,
)
    ensures
        ({
            let effects = message_effects(
                request.asker,
                request.langs,
                state,
                request.results,
                cancelled,
                text,
            );
            &&& trimmed(text).len() == 0 ==> effects.len() == 0
            &&& crate::bot::commands::classified(text)
                == crate::bot::commands::InputView::Number(0) ==> effects.len() == 0
            &&& crate::bot::commands::classified(text) == crate::bot::commands::InputView::Cancel
                ==> (effects.len() > 0) == cancelled && (effects.len() > 0 ==> effects[0] is Say)
        }),
{
}

/// Whether a command is one that only admins may send: it ends the bot, moves
/// it, or sets the language of everybody.
pub open spec fn for_admins(command: CommandView) -> bool {
    command is Quit || command is Restart || command is JoinChannel || command is SetDefaultLanguage
}

/// Whether some effects send no command that is for admins.
pub open spec fn harmless(effects: Seq<EffectView>) -> bool {
    forall|i: int|
        0 <= i < effects.len() ==> !(#[trigger] effects[i] matches EffectView::Send(command)
            && for_admins(command))
}

/// Whatever somebody types who is no admin, none of the commands that are for
/// admins is sent.
pub proof fn others_send_no_admin_command(request: Request, state: PlayerState)
    requires
        !request.asker.is_admin,
    ensures
        harmless(request.effects(state)),
{
    if !crate::bot::commands::admin_command(request.cmd) {
        match volume_request(request.cmd, request.args) {
            Some(asked) => {
                assert(harmless(crate::bot::commands::volume_effects(request.asker, asked)));
            },
            None => match seek_request(request.cmd, request.args) {
                Some(asked) => {
                    assert(harmless(crate::bot::commands::seek_effects(request.asker, asked)));
                },
                None => {
                    lemma_playback_is_harmless(request, state);
                    lemma_others_are_harmless(request, state);
                },
            },
        }
    }
}

proof fn lemma_playback_is_harmless(request: Request, state: PlayerState)
    ensures
        crate::bot::commands::playback_effects(
            request.asker,
            state,
            request.cmd,
            request.args,
        ) matches Some(effects) ==> harmless(effects),
{
    let asker = request.asker;
    let args = request.args;
    assert(harmless(crate::bot::commands::play_effects(asker, state.status, args)));
    assert(harmless(crate::bot::commands::liked_effects(asker, state.active_service)));
    assert(harmless(crate::bot::commands::current_effects(state)));
    assert(harmless(crate::bot::commands::queue_effects(asker, state, args)));
    assert(harmless(crate::bot::commands::mode_effects(asker, state, args)));
    assert(harmless(crate::bot::commands::shuffle_effects(asker, state, args)));
}

proof fn lemma_others_are_harmless(request: Request, state: PlayerState)
    requires
        !crate::bot::commands::admin_command(request.cmd),
    ensures
        harmless(
            crate::bot::commands::other_effects(
                request.asker,
                request.langs,
                state,
                request.results,
                request.cmd,
                request.args,
            ),
        ),
{
    let asker = request.asker;
    let args = request.args;
    let langs = request.langs;
    assert(harmless(crate::bot::commands::search_effects(asker, langs, request.results, args)));
    assert(harmless(crate::bot::commands::pick_effects(asker, args)));
    assert(harmless(crate::bot::commands::radio_effects(asker, state, args)));
    assert(harmless(crate::bot::commands::link_effects(state)));
    assert(harmless(
        crate::bot::commands::service_effects(asker, state.active_service, Service::Spotify),
    ));
    assert(harmless(
        crate::bot::commands::service_effects(asker, state.active_service, Service::YouTube),
    ));
    assert(harmless(crate::bot::commands::nick_effects(asker, args)));
    assert(harmless(crate::bot::commands::gender_effects(asker, args)));
    assert(harmless(crate::bot::commands::lang_effects(asker, langs, args)));
    assert(harmless(crate::bot::commands::stats_effects(asker, state)));
    assert(harmless(
        crate::bot::commands::help_effects(asker, langs, state.active_service, args),
    ));
}

// ---- looking ahead ----

/// The track that is fetched ahead is the one that the end of this track leads
/// to, wherever that is not left to chance; nothing is where nothing follows.
pub proof fn the_next_track_is_fetched_ahead(
    old: Processor,
    new: Processor,
    next: QueueView,
    volume: u8,
    out: Seq<ActionView>,
)
    requires
        old.wf(),
        command_outcome(old, new, CommandView::PreloadNext, volume, out),
        old.state.queue@.advances_to(next, old.state.repeat, old.state.shuffle, true),
        !(old.state.shuffle && old.state.queue@.laps(old.state.repeat, true)),
    ensures
        new == old,
        match next.current {
            Some(entry) => out == seq![ActionView::Preload { uri: entry.track@.uri() }],
            None => out.len() == 0,
        },
{
    crate::bot::queue::peeking_mirrors_advancing(
        old.state.queue@,
        next,
        old.state.repeat,
        old.state.shuffle,
    );
}

/// Recommendations are asked for only from the track that plays, with the
/// radio on and nothing coming, and whatever has been queued is not to be
/// recommended again.
pub proof fn recommendations_are_asked_for_at_the_end(
    old: Processor,
    new: Processor,
    seed_uri: Seq<char>,
    volume: u8,
    out: Seq<ActionView>,
)
    requires
        command_outcome(old, new, CommandView::RadioPreFetch { seed_uri }, volume, out),
    ensures
        new == old,
        old.state.radio_enabled && old.state.status != PlaybackStatus::Idle && old.state.repeat
            == RepeatMode::Off && old.state.queue@.coming().len() == 0 && (
        old.state.queue@.current matches Some(entry) && entry.allow_recommend && entry.track@.uri()
            == seed_uri) ==> out.len() == 1,
        out.len() > 0 ==> {
            &&& out.len() == 1
            &&& old.state.radio_enabled
            &&& old.state.status != PlaybackStatus::Idle
            &&& old.state.repeat == RepeatMode::Off
            &&& old.state.queue@.coming().len() == 0
            &&& old.state.queue@.current matches Some(entry) && entry.allow_recommend
                && entry.track@.uri() == seed_uri
            &&& out[0] matches ActionView::Prefetch { seed_uri: seed, batch, played } && seed
                == seed_uri && batch == old.radio_batch && forall|i: int|
                0 <= i < old.state.queue@.everything().len() ==> played.contains(
                    (#[trigger] old.state.queue@.everything()[i]).track@.id(),
                )
        },
{
    if out.len() > 0 {
        let all = old.state.queue@.everything();
        let played = crate::bot::state::entry_ids(all);
        assert forall|i: int| 0 <= i < all.len() implies played.contains(
            (#[trigger] all[i]).track@.id(),
        ) by {
            assert(played[i] == all[i].track@.id());
        }
    }
}

/// A single track that starts is followed by recommendations if and only if
/// the radio is on; several that start together are not.
pub proof fn a_single_track_leads_to_recommendations(
    old: Processor,
    mid: Processor,
    new: Processor,
    tracks: Seq<Track>,
    user_id: i32,
    user_name: Seq<char>,
    first: Seq<ActionView>,
    out: Seq<ActionView>,
)
    requires
        old.state.status == PlaybackStatus::Idle,
        tracks.len() > 0,
        resolve_outcome(old, mid, tracks, false, user_id, user_name, first),
        start_outcome(mid, new, true, out),
    ensures
        out.contains(ActionView::SchedulePrefetch { seed_uri: tracks[0]@.uri() }) <==> tracks.len()
            == 1 && old.state.radio_enabled,
{
    let wanted = ActionView::SchedulePrefetch { seed_uri: tracks[0]@.uri() };
    let said = crate::bot::runner::replies(
        user_id,
        crate::bot::runner::now_playing_text(tracks[0]@.display_name(), tracks.len(), false),
    );
    let shown = crate::bot::runner::announcing(tracks[0]@.display_name(), mid.state.queue@);
    let head = said + shown;
    assert(!head.contains(wanted));
    if tracks.len() == 1 && old.state.radio_enabled {
        assert(out == head + seq![wanted]);
        assert(out[out.len() - 1] == wanted);
    } else {
        assert(out == head + Seq::<ActionView>::empty());
        assert(out =~= head);
    }
}

/// What is said of a request counts its tracks: those behind the one that
/// plays, or all of them where all have to wait.
pub proof fn a_request_is_counted(first: Seq<char>, behind: nat, wait: Seq<char>, more: bool)
    ensures
        behind > 0 ==> ("Now playing: "@ + first + " (+"@ + digits(behind)
            + " queued"@).is_prefix_of(
            crate::bot::runner::now_playing_text(first, behind + 1, more),
        ),
        first.is_suffix_of(crate::bot::runner::now_playing_text(first, 1, more)),
        behind > 0 ==> ("Queued "@ + digits(behind + 1) + " tracks"@ + wait).is_prefix_of(
            crate::bot::runner::queued_text(first, behind + 1, wait, more),
        ),
        (first + wait).is_suffix_of(crate::bot::runner::queued_text(first, 1, wait, more)),
{
    let a = crate::bot::runner::now_playing_text(first, behind + 1, more);
    let b = crate::bot::runner::now_playing_text(first, 1, more);
    let c = crate::bot::runner::queued_text(first, behind + 1, wait, more);
    let d = crate::bot::runner::queued_text(first, 1, wait, more);
    if behind > 0 {
        let x = "Now playing: "@ + first + " (+"@ + digits(behind) + " queued"@;
        assert((behind + 1 - 1) as nat == behind);
        assert(x =~= a.take(x.len() as int));
        let y = "Queued "@ + digits(behind + 1) + " tracks"@ + wait;
        assert(y =~= c.take(y.len() as int));
    }
    assert(first =~= b.subrange(b.len() - first.len(), b.len() as int));
    let z = first + wait;
    assert(z =~= d.subrange(d.len() - z.len(), d.len() as int));
}

// ---- the end of the queue ----

/// Where nothing follows and the radio cannot go on, the bot falls silent and
/// says so; where it can, it asks for tracks like the one that played, and for
/// none that has been queued.
pub proof fn running_out_ends_in_silence_or_radio(
    old: Processor,
    new: Processor,
    user_id: i32,
    after_track: Option<Seq<char>>,
    volume: u8,
    out: Seq<ActionView>,
)
    requires
        command_outcome(old, new, CommandView::Next { user_id, after_track }, volume, out),
        old.state.queue@.current is Some,
        new.state.queue@.current is None,
    ensures
        ({
            let entry = old.state.queue@.current->0;
            let goes_on = old.state.radio_enabled && entry.allow_recommend && old.state.repeat
                == RepeatMode::Off;
            &&& !goes_on ==> falls_silent(new, out)
            &&& !goes_on && user_id > 0 ==> out[0] is Reply
            &&& goes_on ==> new.state.status == old.state.status && out.len() == 1 && (
            out[0] matches ActionView::Recommend { seed_uri, batch, played, user_id: asker }
                && seed_uri == entry.track@.uri() && batch == old.radio_batch && asker == user_id
                && forall|i: int|
                0 <= i < old.state.queue@.everything().len() ==> played.contains(
                    (#[trigger] old.state.queue@.everything()[i]).track@.id(),
                ))
        }),
{
    let q = old.state.queue@;
    let all = q.everything();
    let played = crate::bot::state::entry_ids(all);
    assert forall|i: int| 0 <= i < all.len() implies played.contains(
        (#[trigger] all[i]).track@.id(),
    ) by {
        assert(played[i] == all[i].track@.id());
    }
    lemma_silence(user_id, "End of queue"@);
}

/// Whether nothing plays any more, and the player, the status line and whoever
/// watches are told.
pub open spec fn falls_silent(new: Processor, out: Seq<ActionView>) -> bool {
    &&& new.state.status == PlaybackStatus::Idle
    &&& new.state.position_ms == 0
    &&& out.contains(ActionView::StopAudio)
    &&& out.contains(ActionView::SetStatus("Idle"@))
    &&& out.contains(ActionView::Report(RunnerEventView::Idle))
}

proof fn lemma_silence(user_id: i32, text: Seq<char>)
    ensures
        ({
            let out = crate::bot::runner::replies(user_id, text)
                + crate::bot::runner::going_idle();
            &&& out.contains(ActionView::StopAudio)
            &&& out.contains(ActionView::SetStatus("Idle"@))
            &&& out.contains(ActionView::Report(RunnerEventView::Idle))
            &&& user_id > 0 ==> out[0] == (ActionView::Reply { user_id, text })
        }),
{
    let said = crate::bot::runner::replies(user_id, text);
    let out = said + crate::bot::runner::going_idle();
    let n = said.len() as int;
    assert(out[n] == ActionView::StopAudio);
    assert(out[n + 1] == ActionView::SetStatus("Idle"@));
    assert(out[n + 2] == ActionView::Report(RunnerEventView::Idle));
}

/// A radio that finds nothing to go on with ends in silence as well.
pub proof fn a_radio_without_tracks_falls_silent(
    old: Processor,
    new: Processor,
    answer: RadioAnswer,
    user_id: i32,
    out: Seq<ActionView>,
)
    requires
        radio_outcome(old, new, answer, user_id, out),
        match answer {
            RadioAnswer::Tracks(tracks) => tracks@.len() == 0,
            _ => true,
        },
    ensures
        falls_silent(new, out),
        new.state.queue == old.state.queue,
{
    match answer {
        RadioAnswer::NoSeed => {
            lemma_silence(0, ""@);
            assert(out =~= crate::bot::runner::replies(0, ""@) + crate::bot::runner::going_idle());
        },
        RadioAnswer::Failed(error) => {
            lemma_silence(
                user_id,
                "Radio failed: "@ + crate::bot::commands::shown_error(error@),
            );
        },
        RadioAnswer::Tracks(tracks) => {
            lemma_silence(user_id, "Radio: no recommendations found"@);
        },
    }
}

/// A seek goes to the player that has the track, and to the one in use where
/// nothing plays.
pub proof fn a_seek_goes_to_the_player_of_the_track(
    old: Processor,
    new: Processor,
    offset_ms: i32,
    user_id: i32,
    volume: u8,
    out: Seq<ActionView>,
)
    requires
        command_outcome(old, new, CommandView::Seek { offset_ms, user_id }, volume, out),
    ensures
        out.len() == 1,
        out[0] matches ActionView::SeekTo { service, position_ms } && position_ms
            == new.state.position_ms && service == (match old.state.queue@.current {
            Some(entry) => entry.track@.service(),
            None => old.state.active_service,
        }),
{
}

/// When the player says that it is time, the track that follows is fetched
/// ahead, and nothing else happens.
pub proof fn the_player_gets_the_next_track_ahead(
    old: Processor,
    mid: Processor,
    new: Processor,
    volume: u8,
    asked: Seq<ActionView>,
    out: Seq<ActionView>,
)
    requires
        signal_outcome(old, mid, PlayerSignal::TimeToPreload, asked),
    ensures
        asked.len() == 1,
        asked[0] matches ActionView::Enqueue(command) && (command_outcome(
            mid,
            new,
            command,
            volume,
            out,
        ) ==> new == old && out == (match old.state.queue@.next_track(old.state.repeat) {
            Some(entry) => seq![ActionView::Preload { uri: entry.track@.uri() }],
            None => seq![],
        })),
{
}

/// A track that starts is shown in the status line, with its place where there
/// are several.
pub proof fn a_started_track_is_shown(old: Processor, new: Processor, out: Seq<ActionView>)
    requires
        old.pending is Some,
        start_outcome(old, new, true, out),
    ensures
        out.contains(
            ActionView::SetStatus(
                crate::bot::runner::status_text(old.pending->0.name@, old.state.queue@),
            ),
        ),
{
    let p = old.pending->0;
    let k = if p.user_id > 0 {
        1int
    } else {
        0int
    };
    assert(out[k] == ActionView::SetStatus(
        crate::bot::runner::status_text(p.name@, old.state.queue@),
    ));
}

/// The last track of the queue is followed by recommendations if the radio is
/// on and it may be recommended from; one that others follow is not.
pub proof fn the_last_track_leads_to_recommendations(
    old: Processor,
    mid: Processor,
    new: Processor,
    user_id: i32,
    after_track: Option<Seq<char>>,
    volume: u8,
    first: Seq<ActionView>,
    out: Seq<ActionView>,
)
    requires
        command_outcome(old, mid, CommandView::Next { user_id, after_track }, volume, first),
        first.len() > 0,
        mid.state.queue@.current is Some,
        start_outcome(mid, new, true, out),
    ensures
        ({
            let entry = mid.state.queue@.current->0;
            out.contains(ActionView::SchedulePrefetch { seed_uri: entry.track@.uri() })
                <==> old.state.radio_enabled && entry.allow_recommend
                && mid.state.queue@.coming().len() == 0
        }),
{
    let entry = mid.state.queue@.current->0;
    let name = entry.track@.display_name();
    let wanted = ActionView::SchedulePrefetch { seed_uri: entry.track@.uri() };
    let head = crate::bot::runner::replies(user_id, "Now playing: "@ + name)
        + crate::bot::runner::announcing(name, mid.state.queue@);
    assert(!head.contains(wanted));
    if old.state.radio_enabled && entry.allow_recommend && mid.state.queue@.coming().len() == 0 {
        assert(out == head + seq![wanted]);
        assert(out[out.len() - 1] == wanted);
    } else {
        assert(out =~= head);
    }
}

} // verus!
