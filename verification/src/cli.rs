//! What the command line asks for, and what becomes of a run.
use vstd::prelude::*;
use vstd::string::*;

use crate::bot::runner::BotExit;
use crate::text::{
    decimal, digits, parse_unsigned, same, starts_with, trim, trimmed, unsigned, views,
};

verus! {

/// The command line, as far as it was given.
#[derive(Debug)]
pub struct Args {
    pub config: Option<String>,
    /// Empty where no name was given.
    pub setup: Option<String>,
    pub list: bool,
    pub status: bool,
    pub start: Option<String>,
    pub stop: Option<String>,
    pub restart: Option<String>,
    pub logs: Option<String>,
    pub follow: bool,
    pub doctor: bool,
    pub install: bool,
    pub uninstall: bool,
    pub purge: bool,
    pub install_service: bool,
    pub uninstall_service: bool,
    pub auth: bool,
    pub auth_status: bool,
    pub setup_yt: bool,
    pub update_tools: bool,
    pub update: bool,
}

/// What the program does.
#[derive(Debug)]
pub enum Command {
    /// The wizard, with the name that was given.
    Setup(Option<String>),
    Doctor,
    List,
    Status,
    /// Something with the bots that are named.
    Control(&'static str, String),
    Logs { name: String, follow: bool },
    Install,
    Uninstall { purge: bool },
    InstallService,
    UninstallService,
    AuthStatus,
    SetupYoutube,
    UpdateTools,
    Update,
    Auth,
    /// Run a bot, with the config that was named.
    Run(Option<String>),
}

/// What the program does, as texts.
pub enum CommandView {
    Setup(Option<Seq<char>>),
    Doctor,
    List,
    Status,
    Control(Seq<char>, Seq<char>),
    Logs(Seq<char>, bool),
    Install,
    Uninstall(bool),
    InstallService,
    UninstallService,
    AuthStatus,
    SetupYoutube,
    UpdateTools,
    Update,
    Auth,
    Run(Option<Seq<char>>),
}

/// An optional string as its characters.
pub open spec fn chars(s: Option<String>) -> Option<Seq<char>> {
    match s {
        Some(text) => Some(text@),
        None => None,
    }
}

impl View for Command {
    type V = CommandView;

    open spec fn view(&self) -> CommandView {
        match *self {
            Command::Setup(name) => CommandView::Setup(chars(name)),
            Command::Doctor => CommandView::Doctor,
            Command::List => CommandView::List,
            Command::Status => CommandView::Status,
            Command::Control(verb, target) => CommandView::Control(verb@, target@),
            Command::Logs { name, follow } => CommandView::Logs(name@, follow),
            Command::Install => CommandView::Install,
            Command::Uninstall { purge } => CommandView::Uninstall(purge),
            Command::InstallService => CommandView::InstallService,
            Command::UninstallService => CommandView::UninstallService,
            Command::AuthStatus => CommandView::AuthStatus,
            Command::SetupYoutube => CommandView::SetupYoutube,
            Command::UpdateTools => CommandView::UpdateTools,
            Command::Update => CommandView::Update,
            Command::Auth => CommandView::Auth,
            Command::Run(config) => CommandView::Run(chars(config)),
        }
    }
}

/// What a command line that holds several commands comes to: the first of them
/// in a fixed order.
pub open spec fn command_of(args: Args) -> CommandView {
    match args.setup {
        Some(name) => CommandView::Setup(
            if name@.len() == 0 {
                None
            } else {
                Some(name@)
            },
        ),
        None => if args.doctor {
            CommandView::Doctor
        } else if args.list {
            CommandView::List
        } else if args.status {
            CommandView::Status
        } else {
            match (args.start, args.stop, args.restart, args.logs) {
                (Some(target), _, _, _) => CommandView::Control("start"@, target@),
                (None, Some(target), _, _) => CommandView::Control("stop"@, target@),
                (None, None, Some(target), _) => CommandView::Control("restart"@, target@),
                (None, None, None, Some(name)) => CommandView::Logs(name@, args.follow),
                (None, None, None, None) => plain_command(args),
            }
        },
    }
}

/// What the commands without a name come to.
pub open spec fn plain_command(args: Args) -> CommandView {
    if args.install {
        CommandView::Install
    } else if args.uninstall {
        CommandView::Uninstall(args.purge)
    } else if args.install_service {
        CommandView::InstallService
    } else if args.uninstall_service {
        CommandView::UninstallService
    } else if args.auth_status {
        CommandView::AuthStatus
    } else if args.setup_yt {
        CommandView::SetupYoutube
    } else if args.update_tools {
        CommandView::UpdateTools
    } else if args.update {
        CommandView::Update
    } else if args.auth {
        CommandView::Auth
    } else {
        CommandView::Run(chars(args.config))
    }
}

/// What the command line asks for.
pub fn command(args: Args) -> (r: Command)
    ensures
        r@ == command_of(args),
{
    if let Some(name) = args.setup {
        return if name.as_str().is_empty() {
            Command::Setup(None)
        } else {
            Command::Setup(Some(name))
        };
    }
    if args.doctor {
        return Command::Doctor;
    }
    if args.list {
        return Command::List;
    }
    if args.status {
        return Command::Status;
    }
    if let Some(target) = args.start {
        return Command::Control("start", target);
    }
    if let Some(target) = args.stop {
        return Command::Control("stop", target);
    }
    if let Some(target) = args.restart {
        return Command::Control("restart", target);
    }
    if let Some(name) = args.logs {
        return Command::Logs { name, follow: args.follow };
    }
    if args.install {
        Command::Install
    } else if args.uninstall {
        Command::Uninstall { purge: args.purge }
    } else if args.install_service {
        Command::InstallService
    } else if args.uninstall_service {
        Command::UninstallService
    } else if args.auth_status {
        Command::AuthStatus
    } else if args.setup_yt {
        Command::SetupYoutube
    } else if args.update_tools {
        Command::UpdateTools
    } else if args.update {
        Command::Update
    } else if args.auth {
        Command::Auth
    } else {
        Command::Run(args.config)
    }
}

/// The name that follows `--setup` in a list of arguments, where the program
/// was called with it. What looks like another flag is no name.
pub open spec fn setup_place(args: Seq<Seq<char>>) -> Option<int>
    decreases args.len(),
{
    if args.len() == 0 {
        None
    } else if args[0] == "--setup"@ {
        Some(0)
    } else {
        match setup_place(args.skip(1)) {
            Some(i) => Some(i + 1),
            None => None,
        }
    }
}

/// What the arguments of the tray ask for.
#[derive(Debug)]
pub enum TrayStart {
    /// The tray itself.
    Tray,
    /// The config editor, on the config of this name.
    Setup(Option<String>),
}

fn find_setup(args: &Vec<String>) -> (r: Option<usize>)
    ensures
        match r {
            Some(i) => setup_place(views(args@)) == Some(i as int) && i < args@.len(),
            None => setup_place(views(args@)) is None,
        },
{
    let mut i: usize = 0;
    assert(views(args@).skip(0) =~= views(args@));
    while i < args.len()
        invariant
            i <= args.len(),
            setup_place(views(args@)) == (match setup_place(views(args@).skip(i as int)) {
                Some(k) => Some(k + i),
                None => None::<int>,
            }),
        decreases args.len() - i,
    {
        assert(views(args@).skip(i as int)[0] == args@[i as int]@);
        assert(views(args@).skip(i as int).skip(1) =~= views(args@).skip(i + 1));
        if same(args[i].as_str(), "--setup") {
            return Some(i);
        }
        i += 1;
    }
    None
}

/// What the arguments of the tray ask for.
pub fn tray_start(args: &Vec<String>) -> (r: TrayStart)
    ensures
        match setup_place(views(args@)) {
            None => r is Tray,
            Some(i) => r matches TrayStart::Setup(name) && chars(name) == (if i + 1 < args@.len()
                && !"-"@.is_prefix_of(args@[i + 1]@) {
                Some(args@[i + 1]@)
            } else {
                None
            }),
        },
{
    match find_setup(args) {
        None => TrayStart::Tray,
        Some(i) => {
            if args.len() - i > 1 && !starts_with(args[i + 1].as_str(), "-") {
                TrayStart::Setup(Some(args[i + 1].clone()))
            } else {
                TrayStart::Setup(None)
            }
        },
    }
}

// ---- running ----

/// Which config to run.
#[derive(Debug)]
pub enum ConfigChoice {
    /// This one.
    Path(String),
    /// The one that the first-run wizard creates.
    First,
    /// None: the user backed out.
    Leave,
}

/// How the config to run is found where none was named.
#[derive(Debug, Clone, Copy, PartialEq, Eq, Structural)]
pub enum Choosing {
    /// There is nothing to choose from, or nobody to ask.
    Nothing,
    /// There is only one.
    Only,
    Ask,
}

/// How to find the config to run among some. Only at a terminal can somebody be
/// asked.
pub fn choosing(configs: usize, interactive: bool) -> (r: Choosing)
    ensures
        r == (if configs == 1 {
            Choosing::Only
        } else if configs == 0 || !interactive {
            Choosing::Nothing
        } else {
            Choosing::Ask
        }),
{
    if configs == 1 {
        Choosing::Only
    } else if configs == 0 || !interactive {
        Choosing::Nothing
    } else {
        Choosing::Ask
    }
}

/// Which of some configs an answer names, counted from 1.
pub fn answered_config(answer: &str, configs: usize) -> (r: Option<usize>)
    ensures
        r == (match unsigned(trimmed(answer@)) {
            Some(n) => if 1 <= n <= configs {
                Some((n - 1) as usize)
            } else {
                None
            },
            None => None,
        }),
{
    match parse_unsigned(trim(answer), configs as u64) {
        Some(n) => if n >= 1 {
            Some((n - 1) as usize)
        } else {
            None
        },
        None => None,
    }
}

/// Which config to run: the one that was named, else the one that was chosen.
/// No configs at all leads to the first-run wizard.
pub fn config_choice(named: Option<String>, configs: usize, chosen: Option<String>) -> (r: ConfigChoice)
    ensures
        match (named, chosen) {
            (Some(path), _) => r == ConfigChoice::Path(path),
            (None, Some(path)) => r == ConfigChoice::Path(path),
            (None, None) => if configs == 0 {
                r == ConfigChoice::First
            } else {
                r == ConfigChoice::Leave
            },
        },
{
    match named {
        Some(path) => ConfigChoice::Path(path),
        None => match chosen {
            Some(path) => ConfigChoice::Path(path),
            None => if configs == 0 {
                ConfigChoice::First
            } else {
                ConfigChoice::Leave
            },
        },
    }
}

/// What follows the end of a bot.
#[derive(Debug)]
pub enum AfterRun {
    Again,
    /// Leave the program with this status.
    Exit(i32),
    /// Leave the program with this error.
    Fail(String),
}

/// What follows the end of a bot. Failing to reach a server that we were told
/// to stop talking to is no error.
pub fn after_run(ended: Result<BotExit, String>, signalled: bool) -> (r: AfterRun)
    ensures
        match ended {
            Ok(BotExit::Restart) => r is Again,
            Ok(_) => r == AfterRun::Exit(0),
            Err(text) => if signalled {
                r == AfterRun::Exit(0)
            } else {
                r == AfterRun::Fail(text)
            },
        },
{
    match ended {
        Ok(BotExit::Restart) => AfterRun::Again,
        Ok(_) => AfterRun::Exit(0),
        Err(text) => if signalled {
            AfterRun::Exit(0)
        } else {
            AfterRun::Fail(text)
        },
    }
}

/// What a signal to stop leads to.
#[derive(Debug, Clone, Copy, PartialEq, Eq, Structural)]
pub enum OnSignal {
    /// Leave the server and exit.
    Stop,
    /// Give up waiting, with this status.
    ExitNow(i32),
}

/// The first signal asks the bot to leave the server and exit; a second one
/// gives up waiting, so a stop that hangs is still answerable from the
/// keyboard.
pub fn on_signal(before: bool) -> (r: OnSignal)
    ensures
        r == (if before {
            OnSignal::ExitNow(130)
        } else {
            OnSignal::Stop
        }),
{
    if before {
        OnSignal::ExitNow(130)
    } else {
        OnSignal::Stop
    }
}

/// What is said of the stored login, and the status to leave with.
pub fn auth_status(stored: bool) -> (r: ((&'static str, &'static str), i32))
    ensures
        r.1 == (if stored {
            0i32
        } else {
            1i32
        }),
        r.0.0@ == (if stored {
            "Spotify: Cached credentials found."@
        } else {
            "Spotify: No cached credentials."@
        }),
        r.0.1@ == (if stored {
            "  (Note: credentials may be expired or revoked.)"@
        } else {
            "  Run with --auth to authenticate."@
        }),
{
    if stored {
        (
            (
                "Spotify: Cached credentials found.",
                "  (Note: credentials may be expired or revoked.)",
            ),
            0,
        )
    } else {
        (("Spotify: No cached credentials.", "  Run with --auth to authenticate."), 1)
    }
}

/// The line that shows how far a download is.
pub fn download_line(done: u64, total: Option<u64>) -> (r: String)
    ensures
        r@ == (match total {
            Some(t) if t > 0 => "\rDownloading... "@ + digits(
                done as nat * 100 / (t as nat),
            ) + "%   "@,
            _ => "\rDownloading... "@ + digits(done as nat) + " bytes   "@,
        }),
{
    let mut out = String::from_str("\rDownloading... ");
    match total {
        Some(t) if t > 0 => {
            let p: u128 = done as u128 * 100 / t as u128;
            out.append(crate::text::decimal_wide(p).as_str());
            out.append("%   ");
        },
        _ => {
            out.append(decimal(done).as_str());
            out.append(" bytes   ");
        },
    }
    out
}

// ---- what holds of every command line ----

/// How many things a command line asks for besides running a bot.
pub open spec fn asked(args: Args) -> int {
    one_if(args.setup is Some) + one_if(args.doctor) + one_if(args.list) + one_if(args.status)
        + one_if(args.start is Some) + one_if(args.stop is Some) + one_if(args.restart is Some)
        + one_if(args.logs is Some) + one_if(args.install) + one_if(args.uninstall) + one_if(
        args.install_service,
    ) + one_if(args.uninstall_service) + one_if(args.auth_status) + one_if(args.setup_yt) + one_if(
        args.update_tools,
    ) + one_if(args.update) + one_if(args.auth)
}

pub open spec fn one_if(b: bool) -> int {
    if b {
        1
    } else {
        0
    }
}

/// The only thing that a command line asks for is what is done, with the name
/// that was given for it.
pub proof fn the_only_thing_asked_for_is_done(args: Args)
    requires
        asked(args) == 1,
    ensures
        args.setup matches Some(name) ==> (command_of(args) matches CommandView::Setup(given)
            && given == (if name@.len() > 0 {
            Some(name@)
        } else {
            None
        })),
        args.start matches Some(name) ==> command_of(args) == CommandView::Control(
            "start"@,
            name@,
        ),
        args.stop matches Some(name) ==> command_of(args) == CommandView::Control("stop"@, name@),
        args.restart matches Some(name) ==> command_of(args) == CommandView::Control(
            "restart"@,
            name@,
        ),
        args.logs matches Some(name) ==> command_of(args) == CommandView::Logs(name@, args.follow),
        args.doctor ==> command_of(args) == CommandView::Doctor,
        args.list ==> command_of(args) == CommandView::List,
        args.status ==> command_of(args) == CommandView::Status,
        args.install ==> command_of(args) == CommandView::Install,
        args.uninstall ==> command_of(args) == CommandView::Uninstall(args.purge),
        args.install_service ==> command_of(args) == CommandView::InstallService,
        args.uninstall_service ==> command_of(args) == CommandView::UninstallService,
        args.auth_status ==> command_of(args) == CommandView::AuthStatus,
        args.setup_yt ==> command_of(args) == CommandView::SetupYoutube,
        args.update_tools ==> command_of(args) == CommandView::UpdateTools,
        args.update ==> command_of(args) == CommandView::Update,
        args.auth ==> command_of(args) == CommandView::Auth,
{
}

/// A bot is run exactly where nothing else was asked for, with the config that
/// was named.
pub proof fn a_bot_is_run_where_nothing_else_is_asked_for(args: Args)
    ensures
        command_of(args) is Run <==> asked(args) == 0,
        asked(args) == 0 ==> command_of(args) == CommandView::Run(chars(args.config)),
{
}

} // verus!
