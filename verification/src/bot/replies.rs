//! What users read, in English, from what they type.
use vstd::prelude::*;

use crate::bot::commands::{
    clock, current_effects, gender_effects, mode_effects, nick_effects, play_effects,
    queue_effects, radio_effects, search_effects, seek_effects, service_effects,
    shuffle_effects, shuffle_request, stats_effects, uptime_text, volume_effects, Asker,
    EffectView, VolumeParse,
};
use crate::bot::state::{modes_text, PlaybackStatus, PlayerState};
use crate::config::valid_gender;
use crate::i18n::{
    a_slot_gives_way_to_its_value, a_template_without_slots_is_sent_as_it_is, filled, Key,
};
use crate::services::Service;
use crate::text::{digits, lowercase, trimmed};
use crate::track::Track;

verus! {

/// Whether an effect is a message that reads like this in English.
pub open spec fn reads(effect: EffectView, text: Seq<char>) -> bool {
    effect matches EffectView::Say(key, args) && filled(key.english_spec(), args) == text
}

proof fn lemma_no_slot(t: Seq<char>)
    requires
        !t.contains('{'),
    ensures
        filled(t, Seq::empty()) == t,
{
    a_template_without_slots_is_sent_as_it_is(t, Seq::empty());
}

proof fn lemma_one_slot(
    before: Seq<char>,
    name: Seq<char>,
    after: Seq<char>,
    value: Seq<char>,
)
    requires
        !before.contains('{'),
        !name.contains('}'),
        !after.contains('{'),
    ensures
        filled(before.push('{') + name.push('}') + after, seq![(name, value)]) == before + value
            + after,
{
    let args = seq![(name, value)];
    a_slot_gives_way_to_its_value(before, name, after, args, 0);
    a_template_without_slots_is_sent_as_it_is(after, args);
}

proof fn lemma_seek_forward(value: Seq<char>)
    ensures
        filled(Key::SeekForward.english_spec(), seq![("seconds"@, value)]) == "Seeking forward "@ + value + "s"@,
{
    reveal_strlit("Seeking forward {seconds}s");
    reveal_strlit("Seeking forward ");
    reveal_strlit("seconds");
    reveal_strlit("s");
    let before = "Seeking forward "@;
    let name = "seconds"@;
    let after = "s"@;
    assert(!before.contains('{'));
    assert(!name.contains('}'));
    assert(!after.contains('{'));
    assert("Seeking forward {seconds}s"@ =~= before.push('{') + name.push('}') + after);
    lemma_one_slot(before, name, after, value);
    assert(before + value + after =~= "Seeking forward "@ + value + "s"@);
}

proof fn lemma_seek_backward(value: Seq<char>)
    ensures
        filled(Key::SeekBackward.english_spec(), seq![("seconds"@, value)]) == "Seeking backward "@ + value + "s"@,
{
    reveal_strlit("Seeking backward {seconds}s");
    reveal_strlit("Seeking backward ");
    reveal_strlit("seconds");
    reveal_strlit("s");
    let before = "Seeking backward "@;
    let name = "seconds"@;
    let after = "s"@;
    assert(!before.contains('{'));
    assert(!name.contains('}'));
    assert(!after.contains('{'));
    assert("Seeking backward {seconds}s"@ =~= before.push('{') + name.push('}') + after);
    lemma_one_slot(before, name, after, value);
    assert(before + value + after =~= "Seeking backward "@ + value + "s"@);
}

proof fn lemma_volume_set(value: Seq<char>)
    ensures
        filled(Key::VolumeSet.english_spec(), seq![("percent"@, value)]) == "Volume set to "@ + value + "%"@,
{
    reveal_strlit("Volume set to {percent}%");
    reveal_strlit("Volume set to ");
    reveal_strlit("percent");
    reveal_strlit("%");
    let before = "Volume set to "@;
    let name = "percent"@;
    let after = "%"@;
    assert(!before.contains('{'));
    assert(!name.contains('}'));
    assert(!after.contains('{'));
    assert("Volume set to {percent}%"@ =~= before.push('{') + name.push('}') + after);
    lemma_one_slot(before, name, after, value);
    assert(before + value + after =~= "Volume set to "@ + value + "%"@);
}

proof fn lemma_removed(value: Seq<char>)
    ensures
        filled(Key::Removed.english_spec(), seq![("name"@, value)]) == "Removed: "@ + value,
{
    reveal_strlit("Removed: {name}");
    reveal_strlit("Removed: ");
    reveal_strlit("name");
    reveal_strlit("");
    let before = "Removed: "@;
    let name = "name"@;
    let after = ""@;
    assert(!before.contains('{'));
    assert(!name.contains('}'));
    assert(!after.contains('{'));
    assert("Removed: {name}"@ =~= before.push('{') + name.push('}') + after);
    lemma_one_slot(before, name, after, value);
    assert(before + value + after =~= "Removed: "@ + value);
}

proof fn lemma_no_track_at_position(value: Seq<char>)
    ensures
        filled(Key::NoTrackAtPosition.english_spec(), seq![("position"@, value)]) == "No track at position "@ + value,
{
    reveal_strlit("No track at position {position}");
    reveal_strlit("No track at position ");
    reveal_strlit("position");
    reveal_strlit("");
    let before = "No track at position "@;
    let name = "position"@;
    let after = ""@;
    assert(!before.contains('{'));
    assert(!name.contains('}'));
    assert(!after.contains('{'));
    assert("No track at position {position}"@ =~= before.push('{') + name.push('}') + after);
    lemma_one_slot(before, name, after, value);
    assert(before + value + after =~= "No track at position "@ + value);
}

proof fn lemma_already_on_service(value: Seq<char>)
    ensures
        filled(Key::AlreadyOnService.english_spec(), seq![("service"@, value)]) == "Already on "@ + value,
{
    reveal_strlit("Already on {service}");
    reveal_strlit("Already on ");
    reveal_strlit("service");
    reveal_strlit("");
    let before = "Already on "@;
    let name = "service"@;
    let after = ""@;
    assert(!before.contains('{'));
    assert(!name.contains('}'));
    assert(!after.contains('{'));
    assert("Already on {service}"@ =~= before.push('{') + name.push('}') + after);
    lemma_one_slot(before, name, after, value);
    assert(before + value + after =~= "Already on "@ + value);
}

proof fn lemma_switched_service(value: Seq<char>)
    ensures
        filled(Key::SwitchedService.english_spec(), seq![("service"@, value)]) == "Switched to "@ + value,
{
    reveal_strlit("Switched to {service}");
    reveal_strlit("Switched to ");
    reveal_strlit("service");
    reveal_strlit("");
    let before = "Switched to "@;
    let name = "service"@;
    let after = ""@;
    assert(!before.contains('{'));
    assert(!name.contains('}'));
    assert(!after.contains('{'));
    assert("Switched to {service}"@ =~= before.push('{') + name.push('}') + after);
    lemma_one_slot(before, name, after, value);
    assert(before + value + after =~= "Switched to "@ + value);
}

proof fn lemma_nickname(value: Seq<char>)
    ensures
        filled(Key::Nickname.english_spec(), seq![("name"@, value)]) == "Nickname changed to "@ + value,
{
    reveal_strlit("Nickname changed to {name}");
    reveal_strlit("Nickname changed to ");
    reveal_strlit("name");
    reveal_strlit("");
    let before = "Nickname changed to "@;
    let name = "name"@;
    let after = ""@;
    assert(!before.contains('{'));
    assert(!name.contains('}'));
    assert(!after.contains('{'));
    assert("Nickname changed to {name}"@ =~= before.push('{') + name.push('}') + after);
    lemma_one_slot(before, name, after, value);
    assert(before + value + after =~= "Nickname changed to "@ + value);
}

proof fn lemma_gender_set(value: Seq<char>)
    ensures
        filled(Key::GenderSet.english_spec(), seq![("gender"@, value)]) == "Gender set to "@ + value,
{
    reveal_strlit("Gender set to {gender}");
    reveal_strlit("Gender set to ");
    reveal_strlit("gender");
    reveal_strlit("");
    let before = "Gender set to "@;
    let name = "gender"@;
    let after = ""@;
    assert(!before.contains('{'));
    assert(!name.contains('}'));
    assert(!after.contains('{'));
    assert("Gender set to {gender}"@ =~= before.push('{') + name.push('}') + after);
    lemma_one_slot(before, name, after, value);
    assert(before + value + after =~= "Gender set to "@ + value);
}

proof fn lemma_info(value: Seq<char>)
    ensures
        filled(Key::Info.english_spec(), seq![("version"@, value)]) == "TeamTalk Spotify Bot v"@ + value,
{
    reveal_strlit("TeamTalk Spotify Bot v{version}");
    reveal_strlit("TeamTalk Spotify Bot v");
    reveal_strlit("version");
    reveal_strlit("");
    let before = "TeamTalk Spotify Bot v"@;
    let name = "version"@;
    let after = ""@;
    assert(!before.contains('{'));
    assert(!name.contains('}'));
    assert(!after.contains('{'));
    assert("TeamTalk Spotify Bot v{version}"@ =~= before.push('{') + name.push('}') + after);
    lemma_one_slot(before, name, after, value);
    assert(before + value + after =~= "TeamTalk Spotify Bot v"@ + value);
}

/// How the messages without slots read.
proof fn lemma_plain_messages()
    ensures
        filled(Key::ShuffleOn.english_spec(), Seq::empty()) == "Shuffle on"@,
        filled(Key::ShuffleOff.english_spec(), Seq::empty()) == "Shuffle off"@,
        filled(Key::RadioEnabled.english_spec(), Seq::empty()) == "Radio enabled"@,
        filled(Key::RadioDisabled.english_spec(), Seq::empty()) == "Radio disabled"@,
        filled(Key::RadioAlreadyOn.english_spec(), Seq::empty()) == "Radio is already on"@,
        filled(Key::RadioAlreadyOff.english_spec(), Seq::empty()) == "Radio is already off"@,
        filled(Key::RadioStatusOn.english_spec(), Seq::empty()) == "Radio is on"@,
        filled(Key::RadioStatusOff.english_spec(), Seq::empty()) == "Radio is off"@,
        filled(Key::ModeRepeatTrack.english_spec(), Seq::empty()) == "Mode: repeat track"@,
        filled(Key::ModeRepeatQueue.english_spec(), Seq::empty()) == "Mode: repeat queue"@,
        filled(Key::ModeOff.english_spec(), Seq::empty()) == "Repeat off"@,
        filled(Key::NothingPlaying.english_spec(), Seq::empty()) == "Nothing playing"@,
        filled(Key::QueueCleared.english_spec(), Seq::empty()) == "Queue cleared"@,
        filled(Key::SearchCancelled.english_spec(), Seq::empty()) == "Search cancelled"@,
        filled(Key::Searching.english_spec(), Seq::empty()) == "Searching..."@,
{
    reveal_strlit("Shuffle on");
    assert(!"Shuffle on"@.contains('{'));
    lemma_no_slot("Shuffle on"@);
    reveal_strlit("Shuffle off");
    assert(!"Shuffle off"@.contains('{'));
    lemma_no_slot("Shuffle off"@);
    reveal_strlit("Radio enabled");
    assert(!"Radio enabled"@.contains('{'));
    lemma_no_slot("Radio enabled"@);
    reveal_strlit("Radio disabled");
    assert(!"Radio disabled"@.contains('{'));
    lemma_no_slot("Radio disabled"@);
    reveal_strlit("Radio is already on");
    assert(!"Radio is already on"@.contains('{'));
    lemma_no_slot("Radio is already on"@);
    reveal_strlit("Radio is already off");
    assert(!"Radio is already off"@.contains('{'));
    lemma_no_slot("Radio is already off"@);
    reveal_strlit("Radio is on");
    assert(!"Radio is on"@.contains('{'));
    lemma_no_slot("Radio is on"@);
    reveal_strlit("Radio is off");
    assert(!"Radio is off"@.contains('{'));
    lemma_no_slot("Radio is off"@);
    reveal_strlit("Mode: repeat track");
    assert(!"Mode: repeat track"@.contains('{'));
    lemma_no_slot("Mode: repeat track"@);
    reveal_strlit("Mode: repeat queue");
    assert(!"Mode: repeat queue"@.contains('{'));
    lemma_no_slot("Mode: repeat queue"@);
    reveal_strlit("Repeat off");
    assert(!"Repeat off"@.contains('{'));
    lemma_no_slot("Repeat off"@);
    reveal_strlit("Nothing playing");
    assert(!"Nothing playing"@.contains('{'));
    lemma_no_slot("Nothing playing"@);
    reveal_strlit("Queue cleared");
    assert(!"Queue cleared"@.contains('{'));
    lemma_no_slot("Queue cleared"@);
    reveal_strlit("Search cancelled");
    assert(!"Search cancelled"@.contains('{'));
    lemma_no_slot("Search cancelled"@);
    reveal_strlit("Searching...");
    assert(!"Searching..."@.contains('{'));
    lemma_no_slot("Searching..."@);
}

/// A seek reads as far as it goes, and in its direction.
pub proof fn a_seek_reads_as_it_goes(asker: Asker, n: int)
    ensures
        seek_effects(asker, Some(n)).len() == 2,
        n >= 0 ==> reads(
            seek_effects(asker, Some(n))[1],
            "Seeking forward "@ + digits(n as nat) + "s"@,
        ),
        n < 0 ==> reads(
            seek_effects(asker, Some(n))[1],
            "Seeking backward "@ + digits((-n) as nat) + "s"@,
        ),
{
    if n >= 0 {
        lemma_seek_forward(digits(n as nat));
    } else {
        lemma_seek_backward(digits((-n) as nat));
    }
}

/// A volume reads as it was set.
pub proof fn a_volume_reads_as_it_was_set(asker: Asker, n: u16)
    requires
        n <= asker.max_volume,
    ensures
        volume_effects(asker, VolumeParse::SetTo(n)).len() == 3,
        reads(
            volume_effects(asker, VolumeParse::SetTo(n))[2],
            "Volume set to "@ + digits(n as nat) + "%"@,
        ),
{
    lemma_volume_set(digits(n as nat));
}

/// Shuffle reads as it was turned, and the radio as it was turned or as it is.
pub proof fn modes_read_as_they_are(asker: Asker, state: PlayerState, args: Seq<char>)
    ensures
        shuffle_request(args, state.shuffle) matches Some(on) ==> reads(
            shuffle_effects(asker, state, args)[1],
            if on {
                "Shuffle on"@
            } else {
                "Shuffle off"@
            },
        ),
        state.active_service == Service::Spotify && lowercase(trimmed(args)) == "on"@ ==> reads(
            radio_effects(asker, state, args).last(),
            if state.radio_enabled {
                "Radio is already on"@
            } else {
                "Radio enabled"@
            },
        ),
        state.active_service == Service::Spotify && lowercase(trimmed(args)) == "off"@ ==> reads(
            radio_effects(asker, state, args).last(),
            if state.radio_enabled {
                "Radio disabled"@
            } else {
                "Radio is already off"@
            },
        ),
        state.active_service == Service::Spotify && lowercase(trimmed(args)).len() == 0 ==> reads(
            radio_effects(asker, state, args).last(),
            if state.radio_enabled {
                "Radio is on"@
            } else {
                "Radio is off"@
            },
        ),
        trimmed(args) == "r"@ ==> reads(mode_effects(asker, state, args)[1], "Mode: repeat track"@),
        trimmed(args) == "rq"@ ==> reads(mode_effects(asker, state, args)[1], "Mode: repeat queue"@),
        trimmed(args) == "off"@ ==> reads(mode_effects(asker, state, args)[1], "Repeat off"@),
{
    lemma_plain_messages();
    reveal_strlit("on");
    reveal_strlit("off");
    reveal_strlit("r");
    reveal_strlit("rq");
    reveal_strlit("repeat");
    reveal_strlit("repeat_queue");
    assert("on"@.len() == 2 && "on"@[0] == 'o' && "on"@[1] == 'n');
    assert("off"@.len() == 3 && "off"@[0] == 'o' && "off"@[1] == 'f');
    assert("r"@.len() == 1);
    assert("rq"@.len() == 2 && "rq"@[0] == 'r');
    assert("repeat"@.len() == 6);
    assert("repeat_queue"@.len() == 12);
    let word = lowercase(trimmed(args));
    if word == "on"@ {
        assert(word.subrange(0, 2) =~= "on"@);
    }
    if word == "off"@ {
        assert(word.subrange(0, 3) =~= "off"@);
        if "on"@.is_prefix_of(word) {
            assert(word.subrange(0, 2)[1] == "on"@[1]);
        }
    }
}

/// A service, a nickname and a gender read as they were chosen.
pub proof fn choices_read_as_they_were_made(
    asker: Asker,
    active: Service,
    wanted: Service,
    args: Seq<char>,
)
    ensures
        active != wanted ==> reads(
            service_effects(asker, active, wanted).last(),
            "Switched to "@ + wanted.name_spec(),
        ),
        active == wanted ==> reads(
            service_effects(asker, active, wanted).last(),
            "Already on "@ + wanted.name_spec(),
        ),
        args.len() > 0 ==> reads(
            nick_effects(asker, args).last(),
            "Nickname changed to "@ + args,
        ),
        valid_gender(lowercase(trimmed(args))) ==> reads(
            gender_effects(asker, args).last(),
            "Gender set to "@ + lowercase(trimmed(args)),
        ),
{
    lemma_switched_service(wanted.name_spec());
    lemma_already_on_service(wanted.name_spec());
    lemma_nickname(args);
    lemma_gender_set(lowercase(trimmed(args)));
}

/// Removing a track reads with its name, and a number without a track as that
/// number; clearing reads as such.
pub proof fn removals_read_with_the_track(asker: Asker, state: PlayerState, n: nat)
    requires
        0 < n <= usize::MAX,
    ensures
        n <= state.queue@.coming().len() ==> reads(
            queue_effects(asker, state, "rm"@ + digits(n)).last(),
            "Removed: "@ + state.queue@.coming()[n - 1].track@.display_name(),
        ),
        n > state.queue@.coming().len() ==> reads(
            queue_effects(asker, state, "rm"@ + digits(n)).last(),
            "No track at position "@ + digits(n),
        ),
        reads(queue_effects(asker, state, "clear"@).last(), "Queue cleared"@),
{
    lemma_plain_messages();
    let args = "rm"@ + digits(n);
    reveal_strlit("rm");
    reveal_strlit("clear");
    assert("clear"@[0] == 'c' && "clear"@.len() == 5);
    assert("rm"@[0] == 'r' && "rm"@.len() == 2);
    crate::text::lemma_digits(n);
    crate::text::decimal_round_trip(n);
    let d = digits(n);
    assert(crate::text::is_digit(d[0]));
    assert(crate::text::is_digit(d[d.len() - 1]));
    crate::text::nothing_to_trim(d);
    assert(args.skip(2) =~= d);
    assert(args.subrange(0, 2) =~= "rm"@);
    if "clear"@.is_prefix_of(args) {
        assert(args.subrange(0, 5)[0] == "clear"@[0]);
    }
    assert("clear"@.subrange(0, 5) =~= "clear"@);
    if n <= state.queue@.coming().len() {
        lemma_removed(state.queue@.coming()[n - 1].track@.display_name());
    }
    lemma_no_track_at_position(digits(n));
}

/// A search reads as one, and where nothing plays that is what is read.
pub proof fn requests_read_as_what_they_are(
    asker: Asker,
    state: PlayerState,
    status: PlaybackStatus,
    langs: Map<Seq<char>, Map<Seq<char>, Seq<char>>>,
    results: Option<Vec<Track>>,
    args: Seq<char>,
)
    ensures
        args.len() > 0 ==> reads(play_effects(asker, status, args).last(), "Searching..."@),
        args.len() > 0 ==> reads(
            search_effects(asker, langs, results, args).last(),
            "Searching..."@,
        ),
        state.queue@.current is None ==> reads(current_effects(state).last(), "Nothing playing"@),
        state.queue@.current is None ==> reads(
            crate::bot::commands::link_effects(state).last(),
            "Nothing playing"@,
        ),
        reads(crate::bot::commands::cancelling(true).last(), "Search cancelled"@),
{
    lemma_plain_messages();
}

/// The results of a search are shown again, every one of them with its number,
/// where nothing is searched for.
pub proof fn results_are_shown_again(
    asker: Asker,
    langs: Map<Seq<char>, Map<Seq<char>, Seq<char>>>,
    results: Option<Vec<Track>>,
)
    requires
        results is Some,
    ensures
        search_effects(asker, langs, results, Seq::empty()).len() == 1,
        search_effects(asker, langs, results, Seq::empty())[0] matches EffectView::Reply(text)
            && exists|header: Seq<char>, footer: Seq<char>|
            text == #[trigger] crate::bot::commands::results_text(results->0@, header, footer),
{
    let e = search_effects(asker, langs, results, Seq::empty());
    let header = crate::i18n::message(
        langs,
        asker.language@,
        Key::SearchResultsHeader,
        Seq::empty(),
    );
    let footer = crate::i18n::message(
        langs,
        asker.language@,
        Key::SearchResultsFooter,
        Seq::empty(),
    );
    assert(e[0] == EffectView::Reply(
        crate::bot::commands::results_text(results->0@, header, footer),
    ));
}

proof fn lemma_volume_show(percent: Seq<char>, max: Seq<char>)
    ensures
        filled(
            Key::VolumeShow.english_spec(),
            seq![("percent"@, percent), ("max"@, max)],
        ) == "Volume: "@ + percent + "% (max "@ + max + "%)"@,
{
    reveal_strlit("percent");
    reveal_strlit("max");
    assert("percent"@.len() == 7);
    assert("max"@.len() == 3);
    let args = seq![("percent"@, percent), ("max"@, max)];
    assert(args[0].0 == "percent"@);
    assert(args[1].0 == "max"@);
    reveal_strlit("Volume: {percent}% (max {max}%)");
    reveal_strlit("Volume: ");
    reveal_strlit("% (max {max}%)");
    reveal_strlit("% (max ");
    reveal_strlit("%)");
    assert("Volume: {percent}% (max {max}%)"@ =~= "Volume: "@.push('{') + "percent"@.push('}') + "% (max {max}%)"@);
    assert(!"Volume: "@.contains('{'));
    assert(!"percent"@.contains('}'));
    a_slot_gives_way_to_its_value("Volume: "@, "percent"@, "% (max {max}%)"@, args, 0);
    assert("% (max {max}%)"@ =~= "% (max "@.push('{') + "max"@.push('}') + "%)"@);
    assert(!"% (max "@.contains('{'));
    assert(!"max"@.contains('}'));
    a_slot_gives_way_to_its_value("% (max "@, "max"@, "%)"@, args, 1);
    assert(!"%)"@.contains('{'));
    a_template_without_slots_is_sent_as_it_is("%)"@, args);
    assert(filled("Volume: {percent}% (max {max}%)"@, args) =~= "Volume: "@ + percent + "% (max "@ + max + "%)"@);
}

proof fn lemma_volume_range(max: Seq<char>, got: Seq<char>)
    ensures
        filled(
            Key::VolumeRange.english_spec(),
            seq![("max"@, max), ("got"@, got)],
        ) == "Volume must be between 0 and "@ + max + ", got "@ + got,
{
    reveal_strlit("max");
    reveal_strlit("got");
    assert("max"@[0] != "got"@[0]);
    assert("max"@.len() == 3);
    assert("got"@.len() == 3);
    let args = seq![("max"@, max), ("got"@, got)];
    assert(args[0].0 == "max"@);
    assert(args[1].0 == "got"@);
    reveal_strlit("Volume must be between 0 and {max}, got {got}");
    reveal_strlit("Volume must be between 0 and ");
    reveal_strlit(", got {got}");
    reveal_strlit(", got ");
    reveal_strlit("");
    assert("Volume must be between 0 and {max}, got {got}"@ =~= "Volume must be between 0 and "@.push('{') + "max"@.push('}') + ", got {got}"@);
    assert(!"Volume must be between 0 and "@.contains('{'));
    assert(!"max"@.contains('}'));
    a_slot_gives_way_to_its_value("Volume must be between 0 and "@, "max"@, ", got {got}"@, args, 0);
    assert(", got {got}"@ =~= ", got "@.push('{') + "got"@.push('}') + ""@);
    assert(!", got "@.contains('{'));
    assert(!"got"@.contains('}'));
    a_slot_gives_way_to_its_value(", got "@, "got"@, ""@, args, 1);
    assert(!""@.contains('{'));
    a_template_without_slots_is_sent_as_it_is(""@, args);
    assert(filled("Volume must be between 0 and {max}, got {got}"@, args) =~= "Volume must be between 0 and "@ + max + ", got "@ + got);
}

proof fn lemma_stats(uptime: Seq<char>, tracks: Seq<char>, queue: Seq<char>, volume: Seq<char>)
    ensures
        filled(
            Key::Stats.english_spec(),
            seq![("uptime"@, uptime), ("tracks"@, tracks), ("queue"@, queue), ("volume"@, volume)],
        ) == "Uptime: "@ + uptime + "\nTracks played: "@ + tracks + "\nUpcoming: "@ + queue + "\nVolume: "@ + volume + "%"@,
{
    reveal_strlit("uptime");
    reveal_strlit("tracks");
    reveal_strlit("queue");
    reveal_strlit("volume");
    assert("uptime"@[0] != "tracks"@[0]);
    assert("uptime"@[0] != "volume"@[0]);
    assert("tracks"@[0] != "volume"@[0]);
    assert("uptime"@.len() == 6);
    assert("tracks"@.len() == 6);
    assert("queue"@.len() == 5);
    assert("volume"@.len() == 6);
    let args = seq![("uptime"@, uptime), ("tracks"@, tracks), ("queue"@, queue), ("volume"@, volume)];
    assert(args[0].0 == "uptime"@);
    assert(args[1].0 == "tracks"@);
    assert(args[2].0 == "queue"@);
    assert(args[3].0 == "volume"@);
    reveal_strlit("Uptime: {uptime}\nTracks played: {tracks}\nUpcoming: {queue}\nVolume: {volume}%");
    reveal_strlit("Uptime: ");
    reveal_strlit("\nTracks played: {tracks}\nUpcoming: {queue}\nVolume: {volume}%");
    reveal_strlit("\nTracks played: ");
    reveal_strlit("\nUpcoming: {queue}\nVolume: {volume}%");
    reveal_strlit("\nUpcoming: ");
    reveal_strlit("\nVolume: {volume}%");
    reveal_strlit("\nVolume: ");
    reveal_strlit("%");
    assert("Uptime: {uptime}\nTracks played: {tracks}\nUpcoming: {queue}\nVolume: {volume}%"@ =~= "Uptime: "@.push('{') + "uptime"@.push('}') + "\nTracks played: {tracks}\nUpcoming: {queue}\nVolume: {volume}%"@);
    assert(!"Uptime: "@.contains('{'));
    assert(!"uptime"@.contains('}'));
    a_slot_gives_way_to_its_value("Uptime: "@, "uptime"@, "\nTracks played: {tracks}\nUpcoming: {queue}\nVolume: {volume}%"@, args, 0);
    assert("\nTracks played: {tracks}\nUpcoming: {queue}\nVolume: {volume}%"@ =~= "\nTracks played: "@.push('{') + "tracks"@.push('}') + "\nUpcoming: {queue}\nVolume: {volume}%"@);
    assert(!"\nTracks played: "@.contains('{'));
    assert(!"tracks"@.contains('}'));
    a_slot_gives_way_to_its_value("\nTracks played: "@, "tracks"@, "\nUpcoming: {queue}\nVolume: {volume}%"@, args, 1);
    assert("\nUpcoming: {queue}\nVolume: {volume}%"@ =~= "\nUpcoming: "@.push('{') + "queue"@.push('}') + "\nVolume: {volume}%"@);
    assert(!"\nUpcoming: "@.contains('{'));
    assert(!"queue"@.contains('}'));
    a_slot_gives_way_to_its_value("\nUpcoming: "@, "queue"@, "\nVolume: {volume}%"@, args, 2);
    assert("\nVolume: {volume}%"@ =~= "\nVolume: "@.push('{') + "volume"@.push('}') + "%"@);
    assert(!"\nVolume: "@.contains('{'));
    assert(!"volume"@.contains('}'));
    a_slot_gives_way_to_its_value("\nVolume: "@, "volume"@, "%"@, args, 3);
    assert(!"%"@.contains('{'));
    a_template_without_slots_is_sent_as_it_is("%"@, args);
    assert(filled("Uptime: {uptime}\nTracks played: {tracks}\nUpcoming: {queue}\nVolume: {volume}%"@, args) =~= "Uptime: "@ + uptime + "\nTracks played: "@ + tracks + "\nUpcoming: "@ + queue + "\nVolume: "@ + volume + "%"@);
}

/// The values of what is said of the track that plays.
spec fn current_args(
    track: Seq<char>,
    index: Seq<char>,
    total: Seq<char>,
    position: Seq<char>,
    duration: Seq<char>,
    modes: Seq<char>,
) -> Seq<(Seq<char>, Seq<char>)> {
    seq![
        ("track"@, track),
        ("index"@, index),
        ("total"@, total),
        ("position"@, position),
        ("duration"@, duration),
        ("modes"@, modes),
    ]
}

proof fn lemma_current_names()
    ensures
        "track"@ != "index"@,
        "track"@ != "total"@,
        "track"@ != "position"@,
        "track"@ != "duration"@,
        "track"@ != "modes"@,
        "index"@ != "total"@,
        "index"@ != "position"@,
        "index"@ != "duration"@,
        "index"@ != "modes"@,
        "total"@ != "position"@,
        "total"@ != "duration"@,
        "total"@ != "modes"@,
        "position"@ != "duration"@,
        "position"@ != "modes"@,
        "duration"@ != "modes"@,
{
    reveal_strlit("track");
    assert("track"@.len() == 5);
    reveal_strlit("index");
    assert("index"@.len() == 5);
    reveal_strlit("total");
    assert("total"@.len() == 5);
    reveal_strlit("position");
    assert("position"@.len() == 8);
    reveal_strlit("duration");
    assert("duration"@.len() == 8);
    reveal_strlit("modes");
    assert("modes"@.len() == 5);
    assert("track"@[0] != "index"@[0]);
    assert("track"@[1] != "total"@[1]);
    assert("track"@[0] != "modes"@[0]);
    assert("index"@[0] != "total"@[0]);
    assert("index"@[0] != "modes"@[0]);
    assert("total"@[0] != "modes"@[0]);
    assert("position"@[0] != "duration"@[0]);
}

proof fn lemma_slot_track(args: Seq<(Seq<char>, Seq<char>)>)
    requires
        args.len() == 6,
        args[0].0 == "track"@,
    ensures
        filled("{track} [{index}/{total}] {position}/{duration} ({modes})"@, args) == ""@ + args[0].1 + filled(" [{index}/{total}] {position}/{duration} ({modes})"@, args),
{
    lemma_current_names();
    reveal_strlit("track");
    reveal_strlit("{track} [{index}/{total}] {position}/{duration} ({modes})");
    reveal_strlit("");
    reveal_strlit(" [{index}/{total}] {position}/{duration} ({modes})");
    assert("{track} [{index}/{total}] {position}/{duration} ({modes})"@ =~= ""@.push('{') + "track"@.push('}') + " [{index}/{total}] {position}/{duration} ({modes})"@);
    assert(!""@.contains('{'));
    assert(!"track"@.contains('}'));
    a_slot_gives_way_to_its_value(""@, "track"@, " [{index}/{total}] {position}/{duration} ({modes})"@, args, 0);
}

proof fn lemma_slot_index(args: Seq<(Seq<char>, Seq<char>)>)
    requires
        args.len() == 6,
        args[0].0 == "track"@,
        args[1].0 == "index"@,
    ensures
        filled(" [{index}/{total}] {position}/{duration} ({modes})"@, args) == " ["@ + args[1].1 + filled("/{total}] {position}/{duration} ({modes})"@, args),
{
    lemma_current_names();
    reveal_strlit("index");
    reveal_strlit(" [{index}/{total}] {position}/{duration} ({modes})");
    reveal_strlit(" [");
    reveal_strlit("/{total}] {position}/{duration} ({modes})");
    assert(" [{index}/{total}] {position}/{duration} ({modes})"@ =~= " ["@.push('{') + "index"@.push('}') + "/{total}] {position}/{duration} ({modes})"@);
    assert(!" ["@.contains('{'));
    assert(!"index"@.contains('}'));
    a_slot_gives_way_to_its_value(" ["@, "index"@, "/{total}] {position}/{duration} ({modes})"@, args, 1);
}

proof fn lemma_slot_total(args: Seq<(Seq<char>, Seq<char>)>)
    requires
        args.len() == 6,
        args[0].0 == "track"@,
        args[1].0 == "index"@,
        args[2].0 == "total"@,
    ensures
        filled("/{total}] {position}/{duration} ({modes})"@, args) == "/"@ + args[2].1 + filled("] {position}/{duration} ({modes})"@, args),
{
    lemma_current_names();
    reveal_strlit("total");
    reveal_strlit("/{total}] {position}/{duration} ({modes})");
    reveal_strlit("/");
    reveal_strlit("] {position}/{duration} ({modes})");
    assert("/{total}] {position}/{duration} ({modes})"@ =~= "/"@.push('{') + "total"@.push('}') + "] {position}/{duration} ({modes})"@);
    assert(!"/"@.contains('{'));
    assert(!"total"@.contains('}'));
    a_slot_gives_way_to_its_value("/"@, "total"@, "] {position}/{duration} ({modes})"@, args, 2);
}

proof fn lemma_slot_position(args: Seq<(Seq<char>, Seq<char>)>)
    requires
        args.len() == 6,
        args[0].0 == "track"@,
        args[1].0 == "index"@,
        args[2].0 == "total"@,
        args[3].0 == "position"@,
    ensures
        filled("] {position}/{duration} ({modes})"@, args) == "] "@ + args[3].1 + filled("/{duration} ({modes})"@, args),
{
    lemma_current_names();
    reveal_strlit("position");
    reveal_strlit("] {position}/{duration} ({modes})");
    reveal_strlit("] ");
    reveal_strlit("/{duration} ({modes})");
    assert("] {position}/{duration} ({modes})"@ =~= "] "@.push('{') + "position"@.push('}') + "/{duration} ({modes})"@);
    assert(!"] "@.contains('{'));
    assert(!"position"@.contains('}'));
    a_slot_gives_way_to_its_value("] "@, "position"@, "/{duration} ({modes})"@, args, 3);
}

proof fn lemma_slot_duration(args: Seq<(Seq<char>, Seq<char>)>)
    requires
        args.len() == 6,
        args[0].0 == "track"@,
        args[1].0 == "index"@,
        args[2].0 == "total"@,
        args[3].0 == "position"@,
        args[4].0 == "duration"@,
    ensures
        filled("/{duration} ({modes})"@, args) == "/"@ + args[4].1 + filled(" ({modes})"@, args),
{
    lemma_current_names();
    reveal_strlit("duration");
    reveal_strlit("/{duration} ({modes})");
    reveal_strlit("/");
    reveal_strlit(" ({modes})");
    assert("/{duration} ({modes})"@ =~= "/"@.push('{') + "duration"@.push('}') + " ({modes})"@);
    assert(!"/"@.contains('{'));
    assert(!"duration"@.contains('}'));
    a_slot_gives_way_to_its_value("/"@, "duration"@, " ({modes})"@, args, 4);
}

proof fn lemma_slot_modes(args: Seq<(Seq<char>, Seq<char>)>)
    requires
        args.len() == 6,
        args[0].0 == "track"@,
        args[1].0 == "index"@,
        args[2].0 == "total"@,
        args[3].0 == "position"@,
        args[4].0 == "duration"@,
        args[5].0 == "modes"@,
    ensures
        filled(" ({modes})"@, args) == " ("@ + args[5].1 + filled(")"@, args),
{
    lemma_current_names();
    reveal_strlit("modes");
    reveal_strlit(" ({modes})");
    reveal_strlit(" (");
    reveal_strlit(")");
    assert(" ({modes})"@ =~= " ("@.push('{') + "modes"@.push('}') + ")"@);
    assert(!" ("@.contains('{'));
    assert(!"modes"@.contains('}'));
    a_slot_gives_way_to_its_value(" ("@, "modes"@, ")"@, args, 5);
}

proof fn lemma_current_track(
    track: Seq<char>,
    index: Seq<char>,
    total: Seq<char>,
    position: Seq<char>,
    duration: Seq<char>,
    modes: Seq<char>,
)
    ensures
        filled(
            Key::CurrentTrack.english_spec(),
            current_args(track, index, total, position, duration, modes),
        ) == track + " ["@ + index + "/"@ + total + "] "@ + position + "/"@ + duration + " ("@ + modes + ")"@,
{
    let args = current_args(track, index, total, position, duration, modes);
    lemma_slot_track(args);
    lemma_slot_index(args);
    lemma_slot_total(args);
    lemma_slot_position(args);
    lemma_slot_duration(args);
    lemma_slot_modes(args);
    reveal_strlit("");
    reveal_strlit(")");
    assert(!")"@.contains('{'));
    a_template_without_slots_is_sent_as_it_is(")"@, args);
    assert(filled("{track} [{index}/{total}] {position}/{duration} ({modes})"@, args) =~= track + " ["@ + index + "/"@ + total + "] "@ + position + "/"@ + duration + " ("@ + modes + ")"@);
}

/// Whoever asks for the volume reads what it is and how loud it may be, and
/// whoever asks for too much reads what is allowed and what was asked for.
pub proof fn the_volume_reads_as_it_is(asker: Asker, n: u16)
    ensures
        reads(
            volume_effects(asker, VolumeParse::Show).last(),
            "Volume: "@ + digits(asker.volume as nat) + "% (max "@ + digits(asker.max_volume as nat)
                + "%)"@,
        ),
        n > asker.max_volume ==> reads(
            volume_effects(asker, VolumeParse::SetTo(n)).last(),
            "Volume must be between 0 and "@ + digits(asker.max_volume as nat) + ", got "@ + digits(
                n as nat,
            ),
        ),
{
    lemma_volume_show(digits(asker.volume as nat), digits(asker.max_volume as nat));
    lemma_volume_range(digits(asker.max_volume as nat), digits(n as nat));
}

/// The statistics read as they are.
pub proof fn the_statistics_read_as_they_are(asker: Asker, state: PlayerState)
    ensures
        reads(
            stats_effects(asker, state).last(),
            "Uptime: "@ + uptime_text(asker.uptime_secs as nat) + "\nTracks played: "@ + digits(
                state.tracks_played as nat,
            ) + "\nUpcoming: "@ + digits(state.queue@.coming().len()) + "\nVolume: "@ + digits(
                asker.volume as nat,
            ) + "%"@,
        ),
{
    lemma_stats(
        uptime_text(asker.uptime_secs as nat),
        digits(state.tracks_played as nat),
        digits(state.queue@.coming().len()),
        digits(asker.volume as nat),
    );
}

/// What plays reads with its name, its place, how far it is and the modes.
pub proof fn what_plays_reads_as_it_is(state: PlayerState)
    requires
        state.queue@.current is Some,
    ensures
        ({
            let track = state.queue@.current->0.track@;
            reads(
                current_effects(state).last(),
                track.display_name() + " ["@ + digits(state.queue@.place().0) + "/"@ + digits(
                    state.queue@.place().1,
                ) + "] "@ + clock(state.position_ms as nat / 1000) + "/"@ + track.duration_display()
                    + " ("@ + modes_text(state.repeat, state.shuffle) + ")"@,
            )
        }),
{
    let track = state.queue@.current->0.track@;
    lemma_current_track(
        track.display_name(),
        digits(state.queue@.place().0),
        digits(state.queue@.place().1),
        clock(state.position_ms as nat / 1000),
        track.duration_display(),
        modes_text(state.repeat, state.shuffle),
    );
}

/// Whoever asks about the bot reads its version.
pub proof fn the_version_reads_as_it_is(request: crate::bot::laws::Request, state: PlayerState)
    requires
        request.cmd == "info"@ || request.cmd == "about"@,
    ensures
        reads(
            request.effects(state).last(),
            "TeamTalk Spotify Bot v"@ + request.asker.version@,
        ),
{
    crate::bot::laws::the_version_is_told(request, state);
    lemma_info(request.asker.version@);
}

} // verus!
