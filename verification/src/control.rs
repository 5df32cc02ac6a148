//! Starting, stopping and watching bots by the name you gave them.
//!
//! The same jobs with systemctl mean knowing which instance a config is, and
//! that its name has to be escaped first. None of that is the user's problem,
//! so these commands take the config name and do the translation.
use vstd::prelude::*;
use vstd::string::*;

use crate::error::{BotError, ErrorView};
use crate::text::{
    clone_strings, decimal, digits, is_one_of, join, joined, lemma_views_push, lines, same,
    split_lines, trim, trimmed, views,
};

verus! {

/// What the commands accept in place of a name.
pub const ALL: &'static str = "all";

/// What is said where there is nothing to drive.
pub const NO_CONFIGS: &'static str = "No configs exist yet. Create one with --setup <name>.";

/// What is said of a name that no config has.
pub open spec fn unknown_target(arg: Seq<char>, configs: Seq<Seq<char>>) -> Seq<char> {
    "No config named \""@ + arg + "\". Available: "@ + joined(configs, ", "@) + " (or \"all\")."@
}

/// Turn the name (or `all`) into config names, or explain what was expected.
pub fn resolve_targets(arg: &str, configs: &Vec<String>) -> (r: Result<Vec<String>, String>)
    ensures
        match r {
            Ok(names) => configs@.len() > 0 && if arg@ == ALL@ {
                views(names@) == views(configs@)
            } else {
                views(configs@).contains(arg@) && views(names@) == seq![arg@]
            },
            Err(text) => if configs@.len() == 0 {
                text@ == NO_CONFIGS@
            } else {
                arg@ != ALL@ && !views(configs@).contains(arg@) && text@ == unknown_target(
                    arg@,
                    views(configs@),
                )
            },
        },
{
    if configs.len() == 0 {
        return Err(String::from_str(NO_CONFIGS));
    }
    if same(arg, ALL) {
        return Ok(clone_strings(configs));
    }
    if is_one_of(configs, arg) {
        let names = vec![arg.to_owned()];
        assert(views(names@) =~= seq![arg@]);
        return Ok(names);
    }
    let mut text = String::from_str("No config named \"");
    text.append(arg);
    text.append("\". Available: ");
    text.append(join(configs, ", ").as_str());
    text.append(" (or \"all\").");
    Err(text)
}

/// Why the service cannot be driven: it needs systemd, and the template unit.
pub open spec fn service_missing(booted: bool, installed: bool, program: Seq<char>) -> Option<
    ErrorView,
> {
    if !booted {
        Some(
            ErrorView::Usage(
                "This needs systemd. Without it, run a bot in the foreground:\n  "@ + program
                    + " --config <path>"@,
            ),
        )
    } else if !installed {
        Some(
            ErrorView::Usage(
                "The systemd service is not installed yet. Install it with:\n  "@ + program
                    + " --install-service"@,
            ),
        )
    } else {
        None
    }
}

/// Shared guard: every verb below drives systemctl, which is not there to be
/// driven on a system that did not boot with systemd, and cannot address our
/// instances until the template unit exists.
pub fn require_service(booted: bool, installed: bool, program: &str) -> (r: Result<(), BotError>)
    ensures
        match r {
            Ok(_) => service_missing(booted, installed, program@) is None,
            Err(e) => service_missing(booted, installed, program@) == Some(e@),
        },
{
    if !booted {
        return Err(
            BotError::Usage(
                around(
                    "This needs systemd. Without it, run a bot in the foreground:\n  ",
                    program,
                    " --config <path>",
                ),
            ),
        );
    }
    if !installed {
        return Err(
            BotError::Usage(
                around(
                    "The systemd service is not installed yet. Install it with:\n  ",
                    program,
                    " --install-service",
                ),
            ),
        );
    }
    Ok(())
}

fn around(before: &str, text: &str, after: &str) -> (r: String)
    ensures
        r@ == before@ + text@ + after@,
{
    let mut out = before.to_owned();
    out.append(text);
    out.append(after);
    out
}

/// What is said where no bot is configured.
pub open spec fn no_bots(program: Seq<char>) -> Seq<Seq<char>> {
    seq!["No bots configured yet."@, "Create one with: "@ + program + " --setup myserver"@]
}

fn no_bots_lines(program: &str) -> (r: Vec<String>)
    ensures
        views(r@) == no_bots(program@),
{
    let out = vec![
        String::from_str("No bots configured yet."),
        around("Create one with: ", program, " --setup myserver"),
    ];
    assert(views(out@) =~= no_bots(program@));
    out
}

/// A configured bot: its name and the path of its config.
#[derive(Debug)]
pub struct Configured {
    pub name: String,
    pub path: String,
}

/// The lines of the list for some bots.
pub open spec fn listed(bots: Seq<Configured>) -> Seq<Seq<char>>
    decreases bots.len(),
{
    if bots.len() == 0 {
        seq![]
    } else {
        listed(bots.drop_last()).push(bots.last().name@).push("  config: "@ + bots.last().path@)
    }
}

/// `--list`: the configs on this machine, whether or not systemd is involved.
pub fn list(bots: &Vec<Configured>, program: &str) -> (r: Vec<String>)
    ensures
        views(r@) == (if bots@.len() == 0 {
            no_bots(program@)
        } else {
            listed(bots@)
        }),
{
    if bots.len() == 0 {
        return no_bots_lines(program);
    }
    let mut out: Vec<String> = Vec::new();
    let mut i: usize = 0;
    assert(views(out@) =~= listed(bots@.take(0)));
    while i < bots.len()
        invariant
            i <= bots.len(),
            views(out@) == listed(bots@.take(i as int)),
        decreases bots.len() - i,
    {
        assert(bots@.take(i + 1).drop_last() =~= bots@.take(i as int));
        let name = bots[i].name.clone();
        proof {
            lemma_views_push(out@, name);
        }
        out.push(name);
        let line = around("  config: ", bots[i].path.as_str(), "");
        proof {
            reveal_strlit("");
            assert(line@ =~= "  config: "@ + bots@[i as int].path@);
            lemma_views_push(out@, line);
        }
        out.push(line);
        i += 1;
    }
    assert(bots@.take(i as int) =~= bots@);
    out
}

/// What there is to say of the bots before each of them is looked at: all of
/// it, where there is no bot or no systemd.
pub open spec fn status_preamble(configs: Seq<Seq<char>>, booted: bool, program: Seq<char>) -> Option<
    Seq<Seq<char>>,
> {
    if configs.len() == 0 {
        Some(no_bots(program))
    } else if !booted {
        Some(
            seq![
                "systemd is not running here, so bots are not managed as services."@,
                "Configured bots: "@ + joined(configs, ", "@),
            ],
        )
    } else {
        None
    }
}

/// `--status`, where it does not come to looking at each bot.
pub fn status_without_service(configs: &Vec<String>, booted: bool, program: &str) -> (r: Option<
    Vec<String>,
>)
    ensures
        match r {
            Some(out) => status_preamble(views(configs@), booted, program@) == Some(views(out@)),
            None => status_preamble(views(configs@), booted, program@) is None,
        },
{
    if configs.len() == 0 {
        return Some(no_bots_lines(program));
    }
    if !booted {
        let mut line = String::from_str("Configured bots: ");
        line.append(join(configs, ", ").as_str());
        let out = vec![
            String::from_str("systemd is not running here, so bots are not managed as services."),
            line,
        ];
        assert(views(out@) =~= seq![
            "systemd is not running here, so bots are not managed as services."@,
            "Configured bots: "@ + joined(views(configs@), ", "@),
        ]);
        return Some(out);
    }
    None
}

/// The unit for a config name.
pub fn unit_for(name: &str) -> (r: String)
    ensures
        r@ == crate::service::unit_of(name@),
{
    crate::service::unit_for(name)
}

/// Whether a bot is among some units.
pub fn has_unit(name: &str, units: &Vec<String>) -> (r: bool)
    ensures
        r == views(units@).contains(crate::service::unit_of(name@)),
{
    is_one_of(units, unit_for(name).as_str())
}

/// What the status says of one bot.
pub open spec fn bot_status(
    name: Seq<char>,
    running: bool,
    enabled: bool,
    since: Option<Seq<char>>,
) -> Seq<Seq<char>> {
    let line = name + ": "@ + (if running {
        "running"@
    } else {
        "stopped"@
    }) + (if enabled {
        ", starts at login"@
    } else {
        ""@
    });
    match since {
        Some(when) if running => seq![line, "  since "@ + when],
        _ => seq![line],
    }
}

/// `--status`: what one bot is doing right now. `since` is when systemd last
/// started it, where it says so.
pub fn status(
    name: &str,
    running: &Vec<String>,
    enabled: &Vec<String>,
    since: Option<&str>,
) -> (r: Vec<String>)
    ensures
        views(r@) == bot_status(
            name@,
            views(running@).contains(crate::service::unit_of(name@)),
            views(enabled@).contains(crate::service::unit_of(name@)),
            crate::paths::text_of(since),
        ),
{
    let is_running = has_unit(name, running);
    let is_enabled = has_unit(name, enabled);
    let mut line = name.to_owned();
    line.append(": ");
    if is_running {
        line.append("running");
    } else {
        line.append("stopped");
    }
    if is_enabled {
        line.append(", starts at login");
    } else {
        line.append("");
    }
    let mut out = vec![line];
    if is_running {
        if let Some(when) = since {
            let mut second = String::from_str("  since ");
            second.append(when);
            out.push(second);
        }
    }
    assert(views(out@) =~= bot_status(
        name@,
        is_running,
        is_enabled,
        crate::paths::text_of(since),
    ));
    out
}

/// When systemd last started a unit, from what it printed.
pub open spec fn since_of(printed: Seq<char>) -> Option<Seq<char>> {
    if trimmed(printed).len() == 0 || trimmed(printed) == "n/a"@ {
        None
    } else {
        Some(trimmed(printed))
    }
}

/// When systemd last started a unit, for the status line: `printed` is what it
/// says of the unit, where it could be asked.
pub fn active_since(printed: Option<&str>) -> (r: Option<String>)
    ensures
        match r {
            Some(when) => printed matches Some(text) && since_of(text@) == Some(when@),
            None => printed matches Some(text) ==> since_of(text@) is None,
        },
{
    match printed {
        Some(text) => {
            let value = trim(text);
            if value.is_empty() || same(value, "n/a") {
                None
            } else {
                Some(value.to_owned())
            }
        },
        None => None,
    }
}

/// A verb in the past tense.
pub open spec fn past_of(verb: Seq<char>) -> Seq<char> {
    if verb == "start"@ {
        "started"@
    } else if verb == "stop"@ {
        "stopped"@
    } else if verb == "restart"@ {
        "restarted"@
    } else {
        verb
    }
}

/// Report what happened in words rather than by bolting "ed" onto the verb,
/// which turns stop into "stoped".
pub fn past_tense<'a>(verb: &'a str) -> (r: &'a str)
    ensures
        r@ == past_of(verb@),
{
    if same(verb, "start") {
        "started"
    } else if same(verb, "stop") {
        "stopped"
    } else if same(verb, "restart") {
        "restarted"
    } else {
        verb
    }
}

/// What is said of one bot that systemctl was asked about.
pub open spec fn control_line(name: Seq<char>, verb: Seq<char>, ok: bool) -> Seq<char> {
    if ok {
        name + ": "@ + past_of(verb) + "."@
    } else {
        name + ": "@ + verb + " failed. See: systemctl --user status "@ + crate::service::unit_of(
            name,
        )
    }
}

/// How many failed.
pub open spec fn failures(oks: Seq<bool>) -> nat
    decreases oks.len(),
{
    if oks.len() == 0 {
        0
    } else {
        failures(oks.drop_last()) + if oks.last() {
            0nat
        } else {
            1nat
        }
    }
}

/// What is said of each bot.
pub open spec fn control_lines(names: Seq<Seq<char>>, verb: Seq<char>, oks: Seq<bool>) -> Seq<
    Seq<char>,
> {
    Seq::new(oks.len(), |i: int| control_line(names[i], verb, oks[i]))
}

fn line_of_control(name: &str, verb: &str, ok: bool) -> (r: String)
    ensures
        r@ == control_line(name@, verb@, ok),
{
    let mut line = name.to_owned();
    line.append(": ");
    if ok {
        line.append(past_tense(verb));
        line.append(".");
    } else {
        line.append(verb);
        line.append(" failed. See: systemctl --user status ");
        line.append(unit_for(name).as_str());
    }
    line
}

/// `--start` / `--stop` / `--restart`, over one bot or all of them: what to say
/// of each, given whether systemctl did it, and what came of it all.
pub fn control(verb: &str, names: &Vec<String>, oks: &Vec<bool>) -> (r: (
    Vec<String>,
    Result<(), BotError>,
))
    requires
        names@.len() == oks@.len(),
    ensures
        views(r.0@) == control_lines(views(names@), verb@, oks@),
        match r.1 {
            Ok(_) => failures(oks@) == 0,
            Err(e) => failures(oks@) > 0 && e@ == ErrorView::Usage(
                digits(failures(oks@)) + " of "@ + digits(names@.len()) + " bot(s) did not "@ + verb@,
            ),
        },
{
    let mut out: Vec<String> = Vec::new();
    let mut failed: usize = 0;
    let mut i: usize = 0;
    while i < names.len()
        invariant
            i <= names.len() == oks.len(),
            failed <= i,
            failed == failures(oks@.take(i as int)),
            views(out@) =~= control_lines(views(names@), verb@, oks@.take(i as int)),
        decreases names.len() - i,
    {
        assert(oks@.take(i + 1).drop_last() =~= oks@.take(i as int));
        let line = line_of_control(names[i].as_str(), verb, oks[i]);
        proof {
            lemma_views_push(out@, line);
            assert(views(names@)[i as int] == names@[i as int]@);
        }
        out.push(line);
        if !oks[i] {
            failed += 1;
        }
        i += 1;
    }
    assert(oks@.take(i as int) =~= oks@);
    if failed > 0 {
        let mut text = decimal(failed as u64);
        text.append(" of ");
        text.append(decimal(names.len() as u64).as_str());
        text.append(" bot(s) did not ");
        text.append(verb);
        return (out, Err(BotError::Usage(text)));
    }
    (out, Ok(()))
}

/// A verb is reported as done exactly where nothing failed.
pub proof fn no_failure_means_all_done(oks: Seq<bool>)
    ensures
        failures(oks) == 0 <==> forall|i: int| 0 <= i < oks.len() ==> #[trigger] oks[i],
    decreases oks.len(),
{
    if oks.len() > 0 {
        no_failure_means_all_done(oks.drop_last());
        if forall|i: int| 0 <= i < oks.len() ==> #[trigger] oks[i] {
            assert forall|i: int| 0 <= i < oks.drop_last().len() implies #[trigger] oks.drop_last()[i] by {
                assert(oks[i]);
            }
            assert(oks[oks.len() - 1]);
        }
        if failures(oks) == 0 {
            assert forall|i: int| 0 <= i < oks.len() implies #[trigger] oks[i] by {
                if i < oks.len() - 1 {
                    assert(oks.drop_last()[i]);
                }
            }
        }
    }
}

/// What is said where there is no bot of that name to read the log of.
pub open spec fn no_such_log(name: Seq<char>, configs: Seq<Seq<char>>) -> ErrorView {
    ErrorView::Usage(
        "No config named \""@ + name + "\". Available: "@ + (if configs.len() == 0 {
            "none"@
        } else {
            joined(configs, ", "@)
        }) + "."@,
    )
}

/// Where the log of a bot is read from.
#[derive(Debug, Clone, Copy, PartialEq, Eq, Structural)]
pub enum LogSource {
    /// The journal, and the log files where it cannot be read.
    Journal,
    Files,
}

/// `--logs <name>`: the journal for one bot, or its log files when there is no
/// journal to read. `all` is meaningless for a single log stream, so it is not
/// accepted here.
pub fn log_source(name: &str, configs: &Vec<String>, booted: bool, installed: bool) -> (r: Result<
    LogSource,
    BotError,
>)
    ensures
        match r {
            Ok(source) => views(configs@).contains(name@) && (source == LogSource::Journal) == (
            booted && installed),
            Err(e) => !views(configs@).contains(name@) && e@ == no_such_log(name@, views(configs@)),
        },
{
    if !is_one_of(configs, name) {
        let mut text = String::from_str("No config named \"");
        text.append(name);
        text.append("\". Available: ");
        if configs.len() == 0 {
            text.append("none");
        } else {
            text.append(join(configs, ", ").as_str());
        }
        text.append(".");
        return Err(BotError::Usage(text));
    }
    if booted && installed {
        Ok(LogSource::Journal)
    } else {
        Ok(LogSource::Files)
    }
}

/// What journalctl is asked for one bot's log.
pub open spec fn journal_request(name: Seq<char>, follow: bool) -> Seq<Seq<char>> {
    let asked = seq!["--user"@, "-u"@, crate::service::unit_of(name), "-n"@, "200"@];
    if follow {
        asked.push("-f"@)
    } else {
        asked
    }
}

pub fn journal_args(name: &str, follow: bool) -> (r: Vec<String>)
    ensures
        views(r@) == journal_request(name@, follow),
{
    let mut out = vec![
        String::from_str("--user"),
        String::from_str("-u"),
        unit_for(name),
        String::from_str("-n"),
        String::from_str("200"),
    ];
    if follow {
        out.push(String::from_str("-f"));
    }
    assert(views(out@) =~= journal_request(name@, follow));
    out
}

/// How much of a log is shown.
pub const SHOWN_LINES: usize = 200;

/// The end of a log.
pub open spec fn log_end(contents: Seq<char>) -> Seq<Seq<char>> {
    let all = lines(contents);
    if all.len() > SHOWN_LINES {
        all.skip(all.len() - SHOWN_LINES)
    } else {
        all
    }
}

/// The last lines of a log file, in their order.
pub fn last_lines(contents: &str) -> (r: Vec<String>)
    ensures
        views(r@) == log_end(contents@),
{
    let all = split_lines(contents);
    let from: usize = if all.len() > SHOWN_LINES {
        all.len() - SHOWN_LINES
    } else {
        0
    };
    let mut out: Vec<String> = Vec::new();
    let mut i: usize = from;
    while i < all.len()
        invariant
            from <= i <= all.len(),
            views(out@) =~= views(all@).subrange(from as int, i as int),
        decreases all.len() - i,
    {
        let line = all[i].clone();
        proof {
            lemma_views_push(out@, line);
        }
        out.push(line);
        i += 1;
    }
    assert(views(out@) =~= log_end(contents@));
    out
}

/// What is said where a bot has no log yet.
pub fn no_logs_yet(name: &str, dir: &str) -> (r: BotError)
    ensures
        r@ == ErrorView::Usage(
            "No logs for \""@ + name@ + "\" yet (looked in "@ + dir@ + ")"@,
        ),
{
    let mut text = String::from_str("No logs for \"");
    text.append(name);
    text.append("\" yet (looked in ");
    text.append(dir);
    text.append(")");
    BotError::Usage(text)
}

/// The list shows every bot by its name, and its config on the line after it,
/// in the order of the bots.
pub proof fn every_bot_is_listed_with_its_config(bots: Seq<Configured>, i: int)
    requires
        0 <= i < bots.len(),
    ensures
        listed(bots).len() == 2 * bots.len(),
        listed(bots)[2 * i] == bots[i].name@,
        listed(bots)[2 * i + 1] == "  config: "@ + bots[i].path@,
    decreases bots.len(),
{
    reveal_with_fuel(listed, 2);
    let p = bots.drop_last();
    if i < p.len() {
        every_bot_is_listed_with_its_config(p, i);
    } else if p.len() > 0 {
        every_bot_is_listed_with_its_config(p, 0);
    }
}

/// What is shown of a log is its end: no more than a fixed number of lines,
/// all of a shorter one, and never an earlier line in place of a later one.
pub proof fn the_end_of_a_log_is_shown(contents: Seq<char>)
    ensures
        log_end(contents).is_suffix_of(lines(contents)),
        log_end(contents).len() <= SHOWN_LINES,
        lines(contents).len() <= SHOWN_LINES ==> log_end(contents) == lines(contents),
        lines(contents).len() > SHOWN_LINES ==> log_end(contents).len() == SHOWN_LINES,
{
    let all = lines(contents);
    let end = log_end(contents);
    assert(all.subrange(all.len() - end.len(), all.len() as int) =~= end);
}

/// The status tells a running bot from a stopped one, and one that starts at
/// login from one that does not.
pub proof fn the_status_tells_bots_apart(
    name: Seq<char>,
    a: bool,
    b: bool,
    x: bool,
    y: bool,
    since: Option<Seq<char>>,
)
    requires
        bot_status(name, a, b, since)[0] == bot_status(name, x, y, since)[0],
    ensures
        a == x,
        b == y,
        bot_status(name, true, b, since)[0].len() >= name.len(),
        bot_status(name, true, b, since).len() == (if since is Some {
            2nat
        } else {
            1nat
        }),
        bot_status(name, false, b, since).len() == 1,
{
    reveal_strlit(": ");
    reveal_strlit("running");
    reveal_strlit("stopped");
    reveal_strlit(", starts at login");
    reveal_strlit("");
    let n = name.len() as int + 2;
    let one = bot_status(name, a, b, since)[0];
    let two = bot_status(name, x, y, since)[0];
    assert("running"@[0] == 'r' && "stopped"@[0] == 's');
    assert(one[n] == (if a {
        'r'
    } else {
        's'
    }));
    assert(two[n] == (if x {
        'r'
    } else {
        's'
    }));
    assert(one.len() == n + 7 + (if b {
        17int
    } else {
        0int
    }));
    assert(two.len() == n + 7 + (if y {
        17int
    } else {
        0int
    }));
}

/// What was done is told of each bot by its name, and a failure is never told
/// as done.
pub proof fn what_was_done_is_told_of_each(
    names: Seq<Seq<char>>,
    verb: Seq<char>,
    oks: Seq<bool>,
    i: int,
)
    requires
        0 <= i < oks.len() == names.len(),
        verb == "start"@ || verb == "stop"@ || verb == "restart"@,
    ensures
        control_lines(names, verb, oks).len() == names.len(),
        names[i].is_prefix_of(control_lines(names, verb, oks)[i]),
        control_line(names[i], verb, true) != control_line(names[i], verb, false),
        verb.len() < past_of(verb).len(),
        verb.is_prefix_of(past_of(verb)),
{
    reveal_strlit("start");
    reveal_strlit("stop");
    reveal_strlit("restart");
    reveal_strlit("started");
    reveal_strlit("stopped");
    reveal_strlit("restarted");
    reveal_strlit(": ");
    reveal_strlit(".");
    reveal_strlit(" failed. See: systemctl --user status ");
    assert("start"@.len() == 5 && "stop"@.len() == 4 && "restart"@.len() == 7);
    let line = control_lines(names, verb, oks)[i];
    assert(line == control_line(names[i], verb, oks[i]));
    assert(line.subrange(0, names[i].len() as int) =~= names[i]);
    let past = past_of(verb);
    assert(past.subrange(0, verb.len() as int) =~= verb);
    let n = names[i].len() as int + 2 + verb.len();
    assert(control_line(names[i], verb, false)[n] == ' ');
    assert(control_line(names[i], verb, true)[n] == past[verb.len() as int]);
}

/// What was done is told by the word that it was asked for with, in the past.
pub proof fn the_past_begins_with_the_verb(verb: Seq<char>)
    ensures
        verb.is_prefix_of(past_of(verb)),
        past_of(verb).len() > verb.len() <==> verb == "start"@ || verb == "stop"@ || verb
            == "restart"@,
{
    reveal_strlit("start");
    reveal_strlit("stop");
    reveal_strlit("restart");
    reveal_strlit("started");
    reveal_strlit("stopped");
    reveal_strlit("restarted");
    assert("start"@.len() == 5 && "started"@.len() == 7);
    assert("stop"@.len() == 4 && "stopped"@.len() == 7);
    assert("restart"@.len() == 7 && "restarted"@.len() == 9);
    assert(verb =~= past_of(verb).take(verb.len() as int));
}

/// The journal is asked for one bot alone, and it is followed only where that
/// was asked for.
pub proof fn the_journal_of_one_bot_is_read(one: Seq<char>, other: Seq<char>, follow: bool)
    ensures
        journal_request(one, follow).contains(crate::service::unit_of(one)),
        journal_request(one, follow) == journal_request(other, follow) ==> one == other,
        journal_request(one, follow).contains("-f"@) <==> follow,
{
    let a = journal_request(one, follow);
    let b = journal_request(other, follow);
    assert(a[2] == crate::service::unit_of(one));
    assert(b[2] == crate::service::unit_of(other));
    crate::service::every_bot_has_a_unit_of_its_own(one, other);
    reveal_strlit("-f");
    reveal_strlit("--user");
    reveal_strlit("-u");
    reveal_strlit("-n");
    reveal_strlit("200");
    assert("-f"@.len() == 2 && "-f"@[1] == 'f');
    assert("--user"@.len() == 6);
    assert("-u"@[1] == 'u');
    assert("-n"@[1] == 'n');
    assert("200"@.len() == 3);
    reveal_strlit("ttspotify@");
    assert(crate::service::unit_of(one).len() >= 10);
    if follow {
        assert(a[5] == "-f"@);
    }
}

/// The service can be driven exactly where systemd runs and the unit is there,
/// and what to do otherwise names the program.
pub proof fn the_service_is_driven_where_it_can_be(booted: bool, installed: bool, program: Seq<char>)
    ensures
        service_missing(booted, installed, program) is None <==> booted && installed,
        status_preamble(seq![program], booted, program) is None <==> booted,
        status_preamble(Seq::empty(), booted, program) is Some,
{
}

/// A time is shown as it was printed, but for the end of the line; where there
/// is none, none is shown.
pub proof fn a_time_is_shown_as_printed(time: Seq<char>)
    requires
        time.len() > 0,
        !crate::text::is_white(time[0]),
        !crate::text::is_white(time.last()),
    ensures
        since_of(time.push('\n')) is Some <==> time != "n/a"@,
        time != "n/a"@ ==> since_of(time.push('\n')) == Some(time),
        since_of(seq!['\n']) is None,
{
    crate::text::trimming_takes_white_space_off(Seq::empty(), time, seq!['\n']);
    assert(Seq::<char>::empty() + time + seq!['\n'] =~= time.push('\n'));
    let blank = seq!['\n'];
    assert(trimmed(blank).len() == 0) by {
        reveal_with_fuel(crate::text::leading_white, 2);
        assert(blank.skip(1) =~= Seq::<char>::empty());
    }
}

} // verus!
