//! What to tell the user to do next, in the words of the platform they are on.
//!
//! The two platforms are driven completely differently: Linux has commands,
//! Windows has a tray menu and no command line to speak of. Keeping the
//! sentences here means one place to change, and laws that notice when a
//! suggestion stops being real.
use vstd::prelude::*;
use vstd::string::*;



verus! {

/// Where the user is: at the tray, or at a shell that knows the program by
/// this name.
#[derive(Debug, Clone, Copy)]
pub enum Platform<'a> {
    Tray,
    Shell(&'a str),
}

/// A command to run.
pub open spec fn run_hint(program: Seq<char>, command: Seq<char>) -> Seq<char> {
    "run: "@ + program + command
}

/// One sentence for the tray or a command for the shell.
pub open spec fn hint(platform: Platform, tray: Seq<char>, command: Seq<char>) -> Seq<char> {
    match platform {
        Platform::Tray => tray,
        Platform::Shell(program) => run_hint(program@, command),
    }
}

fn suggest(platform: Platform, tray: &str, command: &str) -> (r: String)
    ensures
        r@ == hint(platform, tray@, command@),
{
    match platform {
        Platform::Tray => tray.to_owned(),
        Platform::Shell(program) => {
            let mut out = String::from_str("run: ");
            out.append(program);
            out.append(command);
            out
        },
    }
}

fn suggest_for(platform: Platform, tray: &str, command: &str, name: &str) -> (r: String)
    ensures
        r@ == hint(platform, tray@, command@ + name@),
{
    let mut whole = command.to_owned();
    whole.append(name);
    suggest(platform, tray, whole.as_str())
}

/// How to create a bot.
pub fn create_bot(platform: Platform) -> (r: String)
    ensures
        r@ == hint(platform, "use Add Server in the tray menu"@, " add myserver"@),
{
    suggest(platform, "use Add Server in the tray menu", " add myserver")
}

pub open spec fn sign_in_hint(platform: Platform) -> Seq<char> {
    hint(platform, "use Spotify sign-in in the tray menu"@, " auth"@)
}

/// How to sign in to Spotify.
pub fn sign_in_spotify(platform: Platform) -> (r: String)
    ensures
        r@ == sign_in_hint(platform),
{
    suggest(platform, "use Spotify sign-in in the tray menu", " auth")
}

/// How to install the YouTube tools.
pub fn install_youtube_tools(platform: Platform) -> (r: String)
    ensures
        r@ == hint(
            platform,
            "use Install YouTube tools in the tray menu"@,
            " youtube install"@,
        ),
{
    suggest(platform, "use Install YouTube tools in the tray menu", " youtube install")
}

/// How to update the YouTube tools.
pub fn update_youtube_tools(platform: Platform) -> (r: String)
    ensures
        r@ == hint(platform, "use Update tools in the tray menu"@, " youtube update"@),
{
    suggest(platform, "use Update tools in the tray menu", " youtube update")
}

/// How to install the systemd service. Windows has no equivalent (the tray
/// keeps bots running), so it says what is true there instead.
pub fn install_service(platform: Platform) -> (r: String)
    ensures
        r@ == hint(
            platform,
            "the tray keeps bots running; there is no service to install"@,
            " service install"@,
        ),
{
    suggest(
        platform,
        "the tray keeps bots running; there is no service to install",
        " service install",
    )
}

/// How to put the binary on PATH.
pub fn install_binary(platform: Platform) -> (r: String)
    ensures
        r@ == hint(platform, "keep the extracted folder wherever you want it"@, " install"@),
{
    suggest(platform, "keep the extracted folder wherever you want it", " install")
}

/// How to run one bot in this terminal.
pub fn run_bot(platform: Platform, name: &str) -> (r: String)
    ensures
        r@ == hint(platform, "use Start in that bot's tray menu"@, " run "@ + name@),
{
    suggest_for(platform, "use Start in that bot's tray menu", " run ", name)
}

/// How to restart one bot.
pub fn restart_bot(platform: Platform, name: &str) -> (r: String)
    ensures
        r@ == hint(platform, "use Restart in that bot's tray menu"@, " restart "@ + name@),
{
    suggest_for(platform, "use Restart in that bot's tray menu", " restart ", name)
}

/// How to change a bot's settings.
pub fn edit_bot(platform: Platform, name: &str) -> (r: String)
    ensures
        r@ == hint(platform, "use Edit Config in that bot's tray menu"@, " edit "@ + name@),
{
    suggest_for(platform, "use Edit Config in that bot's tray menu", " edit ", name)
}

/// Two dashes in a row, the mark of a command line flag.
pub open spec fn names_a_flag(s: Seq<char>) -> bool {
    exists|i: int| 0 <= i && i + 1 < s.len() && #[trigger] s[i] == '-' && s[i + 1] == '-'
}

/// A suggestion for the shell names a flag only where the program or the
/// command has one in it, or one ends and the other begins with a dash.
pub proof fn a_shell_suggestion_adds_no_flag(program: Seq<char>, command: Seq<char>)
    requires
        !names_a_flag(program),
        !names_a_flag(command),
        command.len() > 0 && command[0] == ' ',
    ensures
        !names_a_flag(run_hint(program, command)),
{
    reveal_strlit("run: ");
    let s = run_hint(program, command);
    let n = program.len() as int;
    if names_a_flag(s) {
        let i = choose|i: int|
            0 <= i && i + 1 < s.len() && #[trigger] s[i] == '-' && s[i + 1] == '-';
        if i < 5 {
            assert(s[i] == "run: "@[i]);
        } else if i < 5 + n {
            assert(s[i] == program[i - 5]);
            if i + 1 < 5 + n {
                assert(s[i + 1] == program[i - 4]);
            } else {
                assert(s[i + 1] == command[0]);
            }
        } else {
            assert(s[i] == command[i - 5 - n]);
            assert(s[i + 1] == command[i - 4 - n]);
        }
    }
}

} // verus!
