//! Interactive config setup wizard.
//!
//! Walks the user through creating a config with prompted inputs, one question
//! after the other, and validates each answer. Printing the questions and
//! reading the answers is left to the caller.
use vstd::prelude::*;
use vstd::string::*;

use crate::config::BotConfig;
use crate::error::{BotError, ErrorView};
use crate::hints::{install_youtube_tools, sign_in_hint, sign_in_spotify, Platform};
use crate::services::{named_service, Service};
use crate::text::{
    decimal, digits, eq_ignore_ascii_case, folded, is_one_of, join, joined, lemma_views_push, lowercase,
    parse_signed, parse_unsigned, same, signed, signed_decimal, signed_digits, split, split_at_all,
    to_lower, trim, trimmed, unsigned, views,
};

verus! {

/// Who may run the bot's admin commands.
#[derive(Debug, Clone, Copy, PartialEq, Eq, Structural)]
pub enum AdminMode {
    Everyone,
    TtRights,
    List,
    Both,
}

impl AdminMode {
    /// Whether somebody may run the admin commands, by whether their name is
    /// listed and whether they are an admin of the server.
    pub open spec fn admits(self, listed: bool, server_admin: bool) -> bool {
        match self {
            AdminMode::Everyone => true,
            AdminMode::TtRights => server_admin,
            AdminMode::List => listed,
            AdminMode::Both => server_admin || listed,
        }
    }

    /// Whether somebody may run the admin commands: everyone may, or those who
    /// are admins of the server, or those whose name is listed, or either.
    pub fn allows(self, admins: &Vec<String>, username: &str, server_admin: bool) -> (r: bool)
        ensures
            r == self.admits(views(admins@).contains(username@), server_admin),
    {
        match self {
            AdminMode::Everyone => true,
            AdminMode::TtRights => server_admin,
            AdminMode::List => is_one_of(admins, username),
            AdminMode::Both => server_admin || is_one_of(admins, username),
        }
    }
}

/// The services a bot offers.
#[derive(Debug, Clone, Copy, PartialEq, Eq, Structural)]
pub struct EnabledServices {
    pub spotify: bool,
    pub youtube: bool,
}

impl Default for EnabledServices {
    fn default() -> (r: Self)
        ensures
            r.spotify && r.youtube,
    {
        EnabledServices { spotify: true, youtube: true }
    }
}

impl EnabledServices {
    /// The service of a bot that offers one alone.
    pub open spec fn only_spec(self) -> Option<Service> {
        if self.spotify && !self.youtube {
            Some(Service::Spotify)
        } else if self.youtube && !self.spotify {
            Some(Service::YouTube)
        } else {
            None
        }
    }

    pub fn only(self) -> (r: Option<Service>)
        ensures
            r == self.only_spec(),
    {
        if self.spotify && !self.youtube {
            Some(Service::Spotify)
        } else if self.youtube && !self.spotify {
            Some(Service::YouTube)
        } else {
            None
        }
    }
}

// ---- reading an answer ----

/// What an answer comes to: the default where it is empty, and nothing where
/// something is required and there is no default.
pub open spec fn reply_to(line: Seq<char>, default: Seq<char>, required: bool) -> Option<Seq<char>> {
    if trimmed(line).len() == 0 && default.len() > 0 {
        Some(default)
    } else if trimmed(line).len() == 0 && required {
        None
    } else {
        Some(trimmed(line))
    }
}

/// What an answer comes to. `None` where the question has to be asked again,
/// because it must be answered.
pub fn ask(line: &str, default: &str, required: bool) -> (r: Option<String>)
    ensures
        match r {
            Some(text) => reply_to(line@, default@, required) == Some(text@),
            None => reply_to(line@, default@, required) is None,
        },
{
    let input = trim(line);
    if input.is_empty() && !default.is_empty() {
        return Some(default.to_owned());
    }
    if input.is_empty() && required {
        return None;
    }
    Some(input.to_owned())
}

/// The number that an answer to a menu names.
pub open spec fn menu_number(input: Seq<char>, choices: u8, default: Seq<char>) -> Option<nat> {
    let text = if trimmed(input).len() == 0 {
        default
    } else {
        trimmed(input)
    };
    match unsigned(text) {
        Some(n) => if 1 <= n <= choices {
            Some(n)
        } else {
            None
        },
        None => None,
    }
}

/// Read a numbered-menu answer. Anything outside the range is refused rather
/// than taken for the default; empty keeps the default, as with every other
/// prompt.
pub fn menu_choice(input: &str, choices: u8, default: &str) -> (r: Option<u8>)
    ensures
        match r {
            Some(n) => menu_number(input@, choices, default@) == Some(n as nat),
            None => menu_number(input@, choices, default@) is None,
        },
{
    let input = trim(input);
    let text = if input.is_empty() {
        default
    } else {
        input
    };
    match parse_unsigned(text, choices as u64) {
        Some(n) => if n >= 1 {
            Some(n as u8)
        } else {
            None
        },
        None => None,
    }
}

/// Whether an answer is yes.
pub open spec fn says_yes(text: Seq<char>) -> bool {
    folded(text) == folded("y"@) || folded(text) == folded("yes"@)
}

/// Whether an answer is no.
pub open spec fn says_no(text: Seq<char>) -> bool {
    folded(text) == folded("n"@) || folded(text) == folded("no"@)
}

pub fn is_yes(text: &str) -> (r: bool)
    ensures
        r == says_yes(text@),
{
    eq_ignore_ascii_case(text, "y") || eq_ignore_ascii_case(text, "yes")
}

pub fn is_no(text: &str) -> (r: bool)
    ensures
        r == says_no(text@),
{
    eq_ignore_ascii_case(text, "n") || eq_ignore_ascii_case(text, "no")
}

/// The names among some texts: what is left of each without the white space
/// around it, if anything.
pub open spec fn names_among(parts: Seq<Seq<char>>) -> Seq<Seq<char>>
    decreases parts.len(),
{
    if parts.len() == 0 {
        seq![]
    } else if trimmed(parts.last()).len() == 0 {
        names_among(parts.drop_last())
    } else {
        names_among(parts.drop_last()).push(trimmed(parts.last()))
    }
}

/// The usernames in a list separated by commas.
pub open spec fn admin_names(text: Seq<char>) -> Seq<Seq<char>> {
    names_among(split(text, ","@))
}

pub fn parse_admin_list(text: &str) -> (r: Vec<String>)
    ensures
        views(r@) == admin_names(text@),
{
    proof {
        reveal_strlit(",");
    }
    let parts = split_at_all(text, ",");
    let mut out: Vec<String> = Vec::new();
    let mut i: usize = 0;
    assert(views(out@) =~= names_among(views(parts@).take(0)));
    while i < parts.len()
        invariant
            i <= parts.len(),
            views(out@) == names_among(views(parts@).take(i as int)),
        decreases parts.len() - i,
    {
        assert(views(parts@).take(i + 1).drop_last() =~= views(parts@).take(i as int));
        assert(views(parts@)[i as int] == parts@[i as int]@);
        let name = trim(parts[i].as_str());
        if !name.is_empty() {
            let name = name.to_owned();
            proof {
                lemma_views_push(out@, name);
            }
            out.push(name);
        }
        i += 1;
    }
    assert(views(parts@).take(i as int) =~= views(parts@));
    out
}

// ---- the name ----

/// What is said of a name that cannot be used.
pub open spec fn unusable_name(given: Seq<char>) -> ErrorView {
    ErrorView::Usage(
        "\""@ + given
            + "\" cannot be used as a bot name. Use letters or numbers; \"all\" is reserved for commands that act on every bot."@,
    )
}

/// The name that was given with the command, once it has been made fit for a
/// file. A name that cannot be used is a mistake in the command, not a change
/// of mind.
pub fn given_name(given: &str, usable: Option<String>) -> (r: Result<String, BotError>)
    ensures
        match usable {
            Some(name) => r == Ok::<String, BotError>(name),
            None => r matches Err(e) && e@ == unusable_name(given@),
        },
{
    match usable {
        Some(name) => Ok(name),
        None => {
            let mut text = String::from_str("\"");
            text.append(given);
            text.append(
                "\" cannot be used as a bot name. Use letters or numbers; \"all\" is reserved for commands that act on every bot.",
            );
            Err(BotError::Usage(text))
        },
    }
}

// ---- the questions ----

#[derive(Debug, Clone, Copy, PartialEq, Eq, Structural)]
pub enum Question {
    Overwrite,
    Host,
    TcpPort,
    UdpPort,
    Username,
    Password,
    BotName,
    Channel,
    ChannelPassword,
    AdminMode,
    Admins,
    Language,
    LicenseName,
    LicenseKey,
    Services,
    DefaultService,
    WantCookies,
    CookiesPath,
    /// Everything has been answered.
    Finished,
}

/// What has been answered so far.
#[derive(Debug)]
pub struct Draft {
    pub host: String,
    pub tcp_port: i32,
    pub udp_port: i32,
    pub username: String,
    pub password: String,
    pub bot_name: String,
    pub channel: String,
    pub channel_password: String,
    pub admin_mode: AdminMode,
    pub admins: Vec<String>,
    pub language: String,
    pub license_name: String,
    pub license_key: String,
    pub services: EnabledServices,
    pub default_service: Service,
    pub cookies_file: String,
}

pub struct DraftView {
    pub host: Seq<char>,
    pub tcp_port: i32,
    pub udp_port: i32,
    pub username: Seq<char>,
    pub password: Seq<char>,
    pub bot_name: Seq<char>,
    pub channel: Seq<char>,
    pub channel_password: Seq<char>,
    pub admin_mode: AdminMode,
    pub admins: Seq<Seq<char>>,
    pub language: Seq<char>,
    pub license_name: Seq<char>,
    pub license_key: Seq<char>,
    pub services: EnabledServices,
    pub default_service: Service,
    pub cookies_file: Seq<char>,
}

impl View for Draft {
    type V = DraftView;

    open spec fn view(&self) -> DraftView {
        DraftView {
            host: self.host@,
            tcp_port: self.tcp_port,
            udp_port: self.udp_port,
            username: self.username@,
            password: self.password@,
            bot_name: self.bot_name@,
            channel: self.channel@,
            channel_password: self.channel_password@,
            admin_mode: self.admin_mode,
            admins: views(self.admins@),
            language: self.language@,
            license_name: self.license_name@,
            license_key: self.license_key@,
            services: self.services,
            default_service: self.default_service,
            cookies_file: self.cookies_file@,
        }
    }
}

/// A question as it is put: the text, what an empty answer stands for, and
/// whether it must be answered.
#[derive(Debug)]
pub struct Prompt {
    pub text: String,
    pub default: String,
    pub required: bool,
}

pub struct PromptView {
    pub text: Seq<char>,
    pub default: Seq<char>,
    pub required: bool,
}

impl View for Prompt {
    type V = PromptView;

    open spec fn view(&self) -> PromptView {
        PromptView { text: self.text@, default: self.default@, required: self.required }
    }
}

/// What is known before the first question: where the config goes, which
/// languages there are, and where cookies are kept.
#[derive(Debug)]
pub struct Known {
    pub config_path: String,
    pub languages: Vec<String>,
    pub cookies_path: String,
}

/// A question with its default.
pub open spec fn prompt_of(q: Question, d: DraftView, known: Known) -> PromptView {
    match q {
        Question::Overwrite => PromptView {
            text: known.config_path@ + " already exists. Overwrite? (y/N)"@,
            default: "n"@,
            required: false,
        },
        Question::Host => PromptView { text: "Server address"@, default: ""@, required: true },
        Question::TcpPort => PromptView { text: "TCP port"@, default: "10333"@, required: true },
        Question::UdpPort => PromptView {
            text: "UDP port"@,
            default: signed_digits(d.tcp_port as int),
            required: true,
        },
        Question::Username => PromptView { text: "Bot username"@, default: ""@, required: true },
        Question::Password => PromptView { text: "Bot password"@, default: ""@, required: false },
        Question::BotName => PromptView {
            text: "Bot nickname"@,
            default: "Spotify"@,
            required: true,
        },
        Question::Channel => PromptView {
            text: "Channel to join (path or leave blank for root)"@,
            default: "/"@,
            required: false,
        },
        Question::ChannelPassword => PromptView {
            text: "Channel password (if any)"@,
            default: ""@,
            required: false,
        },
        Question::AdminMode => PromptView {
            text: "Which admin mode should this bot use? (1-4)"@,
            default: "4"@,
            required: false,
        },
        Question::Admins => PromptView {
            text: "Admin usernames (comma separated)"@,
            default: ""@,
            required: false,
        },
        Question::Language => PromptView {
            text: "Default language ["@ + joined(views(known.languages@), "/"@) + "]"@,
            default: "en"@,
            required: false,
        },
        Question::LicenseName => PromptView { text: "License name"@, default: ""@, required: false },
        Question::LicenseKey => PromptView { text: "License key"@, default: ""@, required: false },
        Question::Services => PromptView {
            text: "Which services should this bot offer? (1-3)"@,
            default: "1"@,
            required: false,
        },
        Question::DefaultService => PromptView {
            text: "Which service should bare commands target? (spotify/youtube)"@,
            default: "spotify"@,
            required: true,
        },
        Question::WantCookies => PromptView {
            text: "Configure a cookies file path? (y/N)"@,
            default: "n"@,
            required: false,
        },
        Question::CookiesPath => PromptView {
            text: "Cookies file path"@,
            default: known.cookies_path@,
            required: false,
        },
        Question::Finished => PromptView { text: ""@, default: ""@, required: false },
    }
}

/// A number for a port.
pub open spec fn port_number(text: Seq<char>) -> Option<int> {
    match signed(text) {
        Some(n) => if i32::MIN <= n <= i32::MAX {
            Some(n)
        } else {
            None
        },
        None => None,
    }
}

/// The admin mode by its number. Anything else lands on the restrictive
/// choice: a misread must not hand out access.
pub open spec fn admin_mode_of(n: nat) -> AdminMode {
    if n == 1 {
        AdminMode::Everyone
    } else if n == 2 {
        AdminMode::TtRights
    } else if n == 3 {
        AdminMode::List
    } else {
        AdminMode::Both
    }
}

/// The services by their number.
pub open spec fn services_of(n: nat) -> EnabledServices {
    EnabledServices { spotify: n != 3, youtube: n != 2 }
}

/// Whether a language is installed.
pub open spec fn installed(languages: Seq<Seq<char>>, code: Seq<char>) -> bool {
    exists|i: int| 0 <= i < languages.len() && folded(#[trigger] languages[i]) == folded(code)
}

/// The service that an answer names; anything unknown is the usual one.
pub open spec fn service_named(text: Seq<char>) -> Service {
    match named_service(lowercase(trimmed(text))) {
        Some(service) => service,
        None => Service::Spotify,
    }
}

/// What an answer leads to.
pub enum Verdict {
    /// Take it, and ask this next.
    Accepted(DraftView, Question),
    /// Say this, and ask again.
    Refused(Seq<char>),
    Cancelled,
}

/// What is said of an answer that is no choice.
pub open spec fn no_choice(choices: nat) -> Seq<char> {
    "    Please answer with a number from 1 to "@ + digits(choices) + "."@
}

/// What is said of a language that is not installed.
pub open spec fn no_language(code: Seq<char>, languages: Seq<Seq<char>>) -> Seq<char> {
    "    No translation installed for \""@ + code + "\". Choose one of: "@ + joined(
        languages,
        ", "@,
    )
}

/// What the answer about the services leads to. With one service the default
/// is that service, and a bot without YouTube needs no cookies.
pub open spec fn with_services(d: DraftView, services: EnabledServices) -> Verdict {
    match services.only_spec() {
        Some(only) => Verdict::Accepted(
            DraftView { services, default_service: only, ..d },
            if services.youtube {
                Question::WantCookies
            } else {
                Question::Finished
            },
        ),
        None => Verdict::Accepted(DraftView { services, ..d }, Question::DefaultService),
    }
}

/// What an answer leads to, once the default has been filled in.
pub open spec fn taken(q: Question, d: DraftView, text: Seq<char>, known: Known) -> Verdict {
    match q {
        Question::Overwrite => if says_yes(text) {
            Verdict::Accepted(d, Question::Host)
        } else {
            Verdict::Cancelled
        },
        Question::Host => Verdict::Accepted(DraftView { host: text, ..d }, Question::TcpPort),
        Question::TcpPort => match port_number(text) {
            Some(n) => Verdict::Accepted(
                DraftView { tcp_port: n as i32, ..d },
                Question::UdpPort,
            ),
            None => Verdict::Refused("    Invalid input. Expected a number."@),
        },
        Question::UdpPort => match port_number(text) {
            Some(n) => Verdict::Accepted(
                DraftView { udp_port: n as i32, ..d },
                Question::Username,
            ),
            None => Verdict::Refused("    Invalid input. Expected a number."@),
        },
        Question::Username => Verdict::Accepted(
            DraftView { username: text, ..d },
            Question::Password,
        ),
        Question::Password => Verdict::Accepted(DraftView { password: text, ..d }, Question::BotName),
        Question::BotName => Verdict::Accepted(DraftView { bot_name: text, ..d }, Question::Channel),
        Question::Channel => Verdict::Accepted(
            DraftView { channel: text, ..d },
            Question::ChannelPassword,
        ),
        Question::ChannelPassword => Verdict::Accepted(
            DraftView { channel_password: text, ..d },
            Question::AdminMode,
        ),
        Question::AdminMode => match menu_number(text, 4, "4"@) {
            Some(n) => Verdict::Accepted(
                DraftView { admin_mode: admin_mode_of(n), ..d },
                if n >= 3 {
                    Question::Admins
                } else {
                    Question::Language
                },
            ),
            None => Verdict::Refused(no_choice(4)),
        },
        Question::Admins => Verdict::Accepted(
            DraftView { admins: admin_names(text), ..d },
            Question::Language,
        ),
        Question::Language => {
            let code = lowercase(trimmed(text));
            if code.len() == 0 {
                Verdict::Accepted(DraftView { language: "en"@, ..d }, Question::LicenseName)
            } else if installed(views(known.languages@), code) {
                Verdict::Accepted(DraftView { language: code, ..d }, Question::LicenseName)
            } else {
                Verdict::Refused(no_language(code, views(known.languages@)))
            }
        },
        Question::LicenseName => Verdict::Accepted(
            DraftView { license_name: text, ..d },
            Question::LicenseKey,
        ),
        Question::LicenseKey => Verdict::Accepted(
            DraftView { license_key: text, ..d },
            Question::Services,
        ),
        Question::Services => match menu_number(text, 3, "1"@) {
            Some(n) => with_services(d, services_of(n)),
            None => Verdict::Refused(no_choice(3)),
        },
        Question::DefaultService => Verdict::Accepted(
            DraftView { default_service: service_named(text), ..d },
            Question::WantCookies,
        ),
        Question::WantCookies => if says_yes(text) {
            Verdict::Accepted(d, Question::CookiesPath)
        } else {
            Verdict::Accepted(DraftView { cookies_file: ""@, ..d }, Question::Finished)
        },
        Question::CookiesPath => Verdict::Accepted(
            DraftView { cookies_file: text, ..d },
            Question::Finished,
        ),
        Question::Finished => Verdict::Accepted(d, Question::Finished),
    }
}

/// What a line leads to; no line is where the user went away. Cookies are
/// never missed.
pub open spec fn judged(q: Question, d: DraftView, line: Option<Seq<char>>, known: Known) -> Verdict {
    match line {
        None => if q == Question::WantCookies {
            Verdict::Accepted(DraftView { cookies_file: ""@, ..d }, Question::Finished)
        } else {
            Verdict::Cancelled
        },
        Some(typed) => {
            let p = prompt_of(q, d, known);
            match reply_to(typed, p.default, p.required) {
                Some(text) => taken(q, d, text, known),
                None => Verdict::Refused("    This field is required."@),
            }
        },
    }
}

/// What follows an answer.
#[derive(Debug)]
pub enum Step {
    /// Put the question that is up now.
    Next,
    /// Say this, and put the same question again.
    Again(String),
    Cancelled,
}

/// The wizard between two questions.
#[derive(Debug)]
pub struct Wizard {
    pub question: Question,
    pub draft: Draft,
    pub known: Known,
}

fn has_language(languages: &Vec<String>, code: &str) -> (r: bool)
    ensures
        r == installed(views(languages@), code@),
{
    let mut i: usize = 0;
    while i < languages.len()
        invariant
            i <= languages.len(),
            forall|k: int|
                0 <= k < i ==> folded(#[trigger] views(languages@)[k]) != folded(code@),
        decreases languages.len() - i,
    {
        if eq_ignore_ascii_case(languages[i].as_str(), code) {
            assert(folded(views(languages@)[i as int]) == folded(code@));
            return true;
        }
        i += 1;
    }
    false
}

fn read_port(text: &str) -> (r: Option<i32>)
    ensures
        match r {
            Some(n) => port_number(text@) == Some(n as int),
            None => port_number(text@) is None,
        },
{
    match parse_signed(text, i32::MAX as i64) {
        Some(n) => Some(n as i32),
        None => None,
    }
}

fn prompt(text: &str, default: &str, required: bool) -> (r: Prompt)
    ensures
        r@ == (PromptView { text: text@, default: default@, required }),
{
    Prompt { text: text.to_owned(), default: default.to_owned(), required }
}

fn refusal(choices: u8) -> (r: Step)
    ensures
        r matches Step::Again(text) && text@ == no_choice(choices as nat),
{
    let mut text = String::from_str("    Please answer with a number from 1 to ");
    text.append(decimal(choices as u64).as_str());
    text.append(".");
    Step::Again(text)
}

/// Whether a step and a new state are what a verdict asks for.
pub open spec fn follows(verdict: Verdict, step: Step, was: Wizard, now: Wizard) -> bool {
    &&& now.known == was.known
    &&& match verdict {
        Verdict::Accepted(draft, next) => step is Next && now.draft@ == draft && now.question == next,
        Verdict::Refused(text) => step matches Step::Again(said) && said@ == text && now == was,
        Verdict::Cancelled => step is Cancelled && now == was,
    }
}

impl Wizard {
    /// Start asking. A config that is there already is asked about first.
    pub fn new(known: Known, there: bool) -> (r: Self)
        ensures
            r.known == known,
            r.question == if there {
                Question::Overwrite
            } else {
                Question::Host
            },
            r.draft@.admins.len() == 0,
            r.draft@.cookies_file.len() == 0,
    {
        Wizard {
            question: if there {
                Question::Overwrite
            } else {
                Question::Host
            },
            draft: Draft {
                host: String::new(),
                tcp_port: 10333,
                udp_port: 10333,
                username: String::new(),
                password: String::new(),
                bot_name: String::new(),
                channel: String::new(),
                channel_password: String::new(),
                admin_mode: AdminMode::Both,
                admins: Vec::new(),
                language: String::new(),
                license_name: String::new(),
                license_key: String::new(),
                services: EnabledServices::default(),
                default_service: Service::default(),
                cookies_file: String::new(),
            },
            known,
        }
    }

    /// The question that is up now.
    pub fn prompt(&self) -> (r: Prompt)
        ensures
            r@ == prompt_of(self.question, self.draft@, self.known),
    {
        match self.question {
            Question::Overwrite => {
                let mut text = self.known.config_path.clone();
                text.append(" already exists. Overwrite? (y/N)");
                prompt(text.as_str(), "n", false)
            },
            Question::Host => prompt("Server address", "", true),
            Question::TcpPort => prompt("TCP port", "10333", true),
            Question::UdpPort => prompt(
                "UDP port",
                signed_decimal(self.draft.tcp_port as i64).as_str(),
                true,
            ),
            Question::Username => prompt("Bot username", "", true),
            Question::Password => prompt("Bot password", "", false),
            Question::BotName => prompt("Bot nickname", "Spotify", true),
            Question::Channel => prompt(
                "Channel to join (path or leave blank for root)",
                "/",
                false,
            ),
            Question::ChannelPassword => prompt("Channel password (if any)", "", false),
            Question::AdminMode => prompt(
                "Which admin mode should this bot use? (1-4)",
                "4",
                false,
            ),
            Question::Admins => prompt("Admin usernames (comma separated)", "", false),
            Question::Language => {
                let mut text = String::from_str("Default language [");
                text.append(join(&self.known.languages, "/").as_str());
                text.append("]");
                prompt(text.as_str(), "en", false)
            },
            Question::LicenseName => prompt("License name", "", false),
            Question::LicenseKey => prompt("License key", "", false),
            Question::Services => prompt("Which services should this bot offer? (1-3)", "1", false),
            Question::DefaultService => prompt(
                "Which service should bare commands target? (spotify/youtube)",
                "spotify",
                true,
            ),
            Question::WantCookies => prompt("Configure a cookies file path? (y/N)", "n", false),
            Question::CookiesPath => prompt(
                "Cookies file path",
                self.known.cookies_path.as_str(),
                false,
            ),
            Question::Finished => prompt("", "", false),
        }
    }

    /// Take an answer, as it was typed; `None` where the user went away.
    pub fn answer(&mut self, line: Option<&str>) -> (r: Step)
        ensures
            follows(
                judged(
                    old(self).question,
                    old(self).draft@,
                    crate::paths::text_of(line),
                    old(self).known,
                ),
                r,
                *old(self),
                *final(self),
            ),
    {
        let typed = match line {
            Some(typed) => typed,
            None => {
                if self.question == Question::WantCookies {
                    self.draft.cookies_file = String::from_str("");
                    self.question = Question::Finished;
                    return Step::Next;
                }
                return Step::Cancelled;
            },
        };
        let p = self.prompt();
        match ask(typed, p.default.as_str(), p.required) {
            Some(text) => self.accept(text),
            None => Step::Again(String::from_str("    This field is required.")),
        }
    }

    fn accept(&mut self, text: String) -> (r: Step)
        ensures
            follows(
                taken(old(self).question, old(self).draft@, text@, old(self).known),
                r,
                *old(self),
                *final(self),
            ),
    {
        match self.question {
            Question::Host | Question::Username | Question::Password | Question::BotName
            | Question::Channel | Question::ChannelPassword | Question::LicenseName
            | Question::LicenseKey | Question::CookiesPath => self.take_text(text),
            Question::TcpPort | Question::UdpPort => self.take_port(text),
            Question::AdminMode | Question::Admins | Question::Language => self.take_access(text),
            _ => self.take_services(text),
        }
    }

    fn take_text(&mut self, text: String) -> (r: Step)
        requires
            old(self).question is Host || old(self).question is Username || old(
                self,
            ).question is Password || old(self).question is BotName || old(self).question is Channel
                || old(self).question is ChannelPassword || old(self).question is LicenseName
                || old(self).question is LicenseKey || old(self).question is CookiesPath,
        ensures
            follows(
                taken(old(self).question, old(self).draft@, text@, old(self).known),
                r,
                *old(self),
                *final(self),
            ),
    {
        match self.question {
            Question::Host => {
                self.draft.host = text;
                self.question = Question::TcpPort;
            },
            Question::Username => {
                self.draft.username = text;
                self.question = Question::Password;
            },
            Question::Password => {
                self.draft.password = text;
                self.question = Question::BotName;
            },
            Question::BotName => {
                self.draft.bot_name = text;
                self.question = Question::Channel;
            },
            Question::Channel => {
                self.draft.channel = text;
                self.question = Question::ChannelPassword;
            },
            Question::ChannelPassword => {
                self.draft.channel_password = text;
                self.question = Question::AdminMode;
            },
            Question::LicenseName => {
                self.draft.license_name = text;
                self.question = Question::LicenseKey;
            },
            Question::LicenseKey => {
                self.draft.license_key = text;
                self.question = Question::Services;
            },
            _ => {
                self.draft.cookies_file = text;
                self.question = Question::Finished;
            },
        }
        Step::Next
    }

    fn take_port(&mut self, text: String) -> (r: Step)
        requires
            old(self).question is TcpPort || old(self).question is UdpPort,
        ensures
            follows(
                taken(old(self).question, old(self).draft@, text@, old(self).known),
                r,
                *old(self),
                *final(self),
            ),
    {
        match read_port(text.as_str()) {
            Some(n) => {
                if self.question == Question::TcpPort {
                    self.draft.tcp_port = n;
                    self.question = Question::UdpPort;
                } else {
                    self.draft.udp_port = n;
                    self.question = Question::Username;
                }
                Step::Next
            },
            None => Step::Again(String::from_str("    Invalid input. Expected a number.")),
        }
    }

    fn take_access(&mut self, text: String) -> (r: Step)
        requires
            old(self).question is AdminMode || old(self).question is Admins || old(
                self,
            ).question is Language,
        ensures
            follows(
                taken(old(self).question, old(self).draft@, text@, old(self).known),
                r,
                *old(self),
                *final(self),
            ),
    {
        match self.question {
            Question::AdminMode => match menu_choice(text.as_str(), 4, "4") {
                Some(n) => {
                    self.draft.admin_mode = match n {
                        1 => AdminMode::Everyone,
                        2 => AdminMode::TtRights,
                        3 => AdminMode::List,
                        _ => AdminMode::Both,
                    };
                    self.question = if n >= 3 {
                        Question::Admins
                    } else {
                        Question::Language
                    };
                    Step::Next
                },
                None => refusal(4),
            },
            Question::Admins => {
                self.draft.admins = parse_admin_list(text.as_str());
                self.question = Question::Language;
                Step::Next
            },
            _ => {
                let code = to_lower(trim(text.as_str()));
                if code.as_str().is_empty() {
                    self.draft.language = String::from_str("en");
                } else if has_language(&self.known.languages, code.as_str()) {
                    self.draft.language = code;
                } else {
                    let mut said = String::from_str("    No translation installed for \"");
                    said.append(code.as_str());
                    said.append("\". Choose one of: ");
                    said.append(join(&self.known.languages, ", ").as_str());
                    return Step::Again(said);
                }
                self.question = Question::LicenseName;
                Step::Next
            },
        }
    }

    fn take_services(&mut self, text: String) -> (r: Step)
        requires
            old(self).question is Overwrite || old(self).question is Services || old(
                self,
            ).question is DefaultService || old(self).question is WantCookies || old(
                self,
            ).question is Finished,
        ensures
            follows(
                taken(old(self).question, old(self).draft@, text@, old(self).known),
                r,
                *old(self),
                *final(self),
            ),
    {
        match self.question {
            Question::Overwrite => {
                if !is_yes(text.as_str()) {
                    return Step::Cancelled;
                }
                self.question = Question::Host;
            },
            Question::Services => match menu_choice(text.as_str(), 3, "1") {
                Some(n) => {
                    let services = EnabledServices { spotify: n != 3, youtube: n != 2 };
                    self.draft.services = services;
                    match services.only() {
                        Some(only) => {
                            self.draft.default_service = only;
                            self.question = if services.youtube {
                                Question::WantCookies
                            } else {
                                Question::Finished
                            };
                        },
                        None => {
                            self.question = Question::DefaultService;
                        },
                    }
                },
                None => {
                    return refusal(3);
                },
            },
            Question::DefaultService => {
                self.draft.default_service = Service::parse_or_default(text.as_str());
                self.question = Question::WantCookies;
            },
            Question::WantCookies => {
                if is_yes(text.as_str()) {
                    self.question = Question::CookiesPath;
                } else {
                    self.draft.cookies_file = String::from_str("");
                    self.question = Question::Finished;
                }
            },
            _ => {},
        }
        Step::Next
    }
}

// ---- the config ----

/// What the answers come to: the config, and who may do what with the bot.
#[derive(Debug)]
pub struct Setup {
    pub config: BotConfig,
    pub admin_mode: AdminMode,
    pub admins: Vec<String>,
    pub default_language: String,
    pub enabled_services: EnabledServices,
}

/// An answer that may be left out.
pub open spec fn is_optional(kept: Option<String>, text: Seq<char>) -> bool {
    match kept {
        Some(k) => text.len() > 0 && k@ == text,
        None => text.len() == 0,
    }
}

/// Whether a config holds the answers, and the defaults besides.
pub open spec fn holds_answers(c: BotConfig, d: DraftView) -> bool {
    &&& c.host@ == d.host
    &&& c.tcp_port == d.tcp_port
    &&& c.udp_port == d.udp_port
    &&& c.username@ == d.username
    &&& c.password@ == d.password
    &&& c.bot_name@ == d.bot_name
    &&& c.channel_name@ == if d.channel.len() == 0 {
        "/"@
    } else {
        d.channel
    }
    &&& c.channel_password@ == d.channel_password
    &&& is_optional(c.license_name, d.license_name)
    &&& is_optional(c.license_key, d.license_key)
    &&& c.default_service == d.default_service
    &&& c.youtube_cookies_file@ == d.cookies_file
    &&& !c.encrypted
    &&& c.bot_gender@ == "neutral"@
    &&& c.spotify_quality@ == "VERY_HIGH"@
    &&& c.spotify_enable_normalization
    &&& c.normalisation_type@ == "auto"@
    &&& c.normalisation_method@ == "dynamic"@
    &&& c.volume == 50
    &&& c.max_volume == 70
    &&& c.jitter_buffer_ms == 400
    &&& !c.radio_enabled
    &&& c.radio_batch_size == 3
    &&& c.search_limit == 5
    &&& !c.repeat_track
    &&& !c.repeat_queue
    &&& !c.shuffle
}

fn optional(text: String) -> (r: Option<String>)
    ensures
        is_optional(r, text@),
{
    if text.as_str().is_empty() {
        None
    } else {
        Some(text)
    }
}

impl Wizard {
    /// What the answers come to, once everything has been answered.
    pub fn finish(self) -> (r: Option<Setup>)
        ensures
            match r {
                Some(setup) => {
                    &&& self.question == Question::Finished
                    &&& holds_answers(setup.config, self.draft@)
                    &&& setup.admin_mode == self.draft@.admin_mode
                    &&& views(setup.admins@) == self.draft@.admins
                    &&& setup.default_language@ == self.draft@.language
                    &&& setup.enabled_services == self.draft@.services
                },
                None => self.question != Question::Finished,
            },
    {
        if self.question != Question::Finished {
            return None;
        }
        let d = self.draft;
        let channel_name = if d.channel.as_str().is_empty() {
            String::from_str("/")
        } else {
            d.channel
        };
        let config = BotConfig {
            host: d.host,
            tcp_port: d.tcp_port,
            udp_port: d.udp_port,
            username: d.username,
            password: d.password,
            bot_name: d.bot_name,
            channel_name,
            channel_password: d.channel_password,
            license_name: optional(d.license_name),
            license_key: optional(d.license_key),
            default_service: d.default_service,
            youtube_cookies_file: d.cookies_file,
            ..BotConfig::default()
        };
        Some(
            Setup {
                config,
                admin_mode: d.admin_mode,
                admins: d.admins,
                default_language: d.language,
                enabled_services: d.services,
            },
        )
    }
}

/// The heading that stands above a question, with what there is to explain.
pub fn heading(question: Question) -> (r: Vec<&'static str>)
    ensures
        r@.len() > 0 <==> (question is Host || question is Username || question is BotName
            || question is AdminMode || question is Language || question is LicenseName
            || question is Services || question is WantCookies),
        question is Host ==> literals(r@) == seq!["TeamTalk Server Settings"@],
        question is Username ==> literals(r@) == seq!["Bot Credentials"@],
        question is BotName ==> literals(r@) == seq!["Bot Settings"@],
        question is AdminMode ==> literals(r@) == seq![
            "Admin Permissions"@,
            "  Who may run the bot's admin commands:"@,
            "  1. Everyone - no restrictions, any user can run every command"@,
            "  2. TeamTalk server admins - admins from the server's user accounts"@,
            "  3. Username list - only the usernames you enter next"@,
            "  4. Both - TeamTalk server admins or the username list"@,
        ],
        question is Language ==> literals(r@) == seq!["Language"@],
        question is LicenseName ==> literals(r@) == seq!["License (optional)"@],
        question is Services ==> literals(r@) == seq![
            "Services"@,
            "  A bot limited to YouTube never touches the Spotify login saved on"@,
            "  this machine - useful for a bot that sits on someone else's server."@,
            "  1. Both Spotify and YouTube"@,
            "  2. Spotify only"@,
            "  3. YouTube only"@,
        ],
        question is WantCookies ==> literals(r@) == seq![
            "YouTube Cookies (optional)"@,
            "  Cookies help with rate-limited or age-restricted videos."@,
            "  Playback works without them in most cases."@,
        ],
{
    let r = match question {
        Question::Host => vec!["TeamTalk Server Settings"],
        Question::Username => vec!["Bot Credentials"],
        Question::BotName => vec!["Bot Settings"],
        Question::AdminMode => vec![
            "Admin Permissions",
            "  Who may run the bot's admin commands:",
            "  1. Everyone - no restrictions, any user can run every command",
            "  2. TeamTalk server admins - admins from the server's user accounts",
            "  3. Username list - only the usernames you enter next",
            "  4. Both - TeamTalk server admins or the username list",
        ],
        Question::Language => vec!["Language"],
        Question::LicenseName => vec!["License (optional)"],
        Question::Services => vec![
            "Services",
            "  A bot limited to YouTube never touches the Spotify login saved on",
            "  this machine - useful for a bot that sits on someone else's server.",
            "  1. Both Spotify and YouTube",
            "  2. Spotify only",
            "  3. YouTube only",
        ],
        Question::WantCookies => vec![
            "YouTube Cookies (optional)",
            "  Cookies help with rate-limited or age-restricted videos.",
            "  Playback works without them in most cases.",
        ],
        _ => Vec::new(),
    };
    r
}

/// The characters of some literals.
pub open spec fn literals(v: Seq<&str>) -> Seq<Seq<char>> {
    v.map_values(|s: &str| s@)
}

// ---- after the config is saved ----

/// Whether to sign in to Spotify now, given the answer (yes unless it is no).
/// A bot that does not offer Spotify is not asked.
pub fn signs_in(services: EnabledServices, answer: Option<&str>) -> (r: bool)
    ensures
        r == (services.spotify && match answer {
            Some(text) => !says_no(text@),
            None => true,
        }),
{
    services.spotify && match answer {
        Some(text) => !is_no(text),
        None => true,
    }
}

/// What came of signing in.
#[derive(Debug)]
pub enum SignInResult {
    Done,
    Failed(String),
    NotTried,
    Declined,
}

pub open spec fn sign_in_lines(result: SignInResult, platform: Platform) -> Seq<Seq<char>> {
    match result {
        SignInResult::Done => seq!["  Spotify authentication successful! Credentials cached."@],
        SignInResult::Failed(text) => seq![
            "  Spotify authentication failed: "@ + text@,
            "  To try again, "@ + sign_in_hint(platform),
        ],
        SignInResult::NotTried => seq![
            "  Could not initialize authentication."@,
            "  To sign in later, "@ + sign_in_hint(platform),
        ],
        SignInResult::Declined => seq![
            "  Skipping Spotify authentication."@,
            "  To sign in later, "@ + sign_in_hint(platform),
        ],
    }
}

fn line(label: &str, text: &str) -> (r: String)
    ensures
        r@ == label@ + text@,
{
    let mut out = label.to_owned();
    out.append(text);
    out
}

/// What to say about signing in.
pub fn sign_in_report(result: SignInResult, platform: Platform) -> (r: Vec<String>)
    ensures
        views(r@) == sign_in_lines(result, platform),
{
    let hint = sign_in_spotify(platform);
    let out = match &result {
        SignInResult::Done => vec![
            String::from_str("  Spotify authentication successful! Credentials cached."),
        ],
        SignInResult::Failed(text) => vec![
            line("  Spotify authentication failed: ", text.as_str()),
            line("  To try again, ", hint.as_str()),
        ],
        SignInResult::NotTried => vec![
            String::from_str("  Could not initialize authentication."),
            line("  To sign in later, ", hint.as_str()),
        ],
        SignInResult::Declined => vec![
            String::from_str("  Skipping Spotify authentication."),
            line("  To sign in later, ", hint.as_str()),
        ],
    };
    assert(views(out@) =~= sign_in_lines(result, platform));
    out
}

/// Whether to ask about the YouTube tools: the bot offers YouTube, and they are
/// not there yet. Their default is yes where the bot starts on YouTube.
pub fn youtube_question(services: EnabledServices, default: Service, installed: bool) -> (r: Option<
    (&'static str, &'static str),
>)
    ensures
        match r {
            Some((text, answer)) => services.youtube && !installed && if default
                == Service::YouTube {
                text@
                    == "YouTube support requires extra binaries (~50 MB: yt-dlp, bgutil-pot, plugin). Download now? (Y/n)"@
                    && answer@ == "y"@
            } else {
                text@
                    == "You can also enable YouTube support. Downloads ~50 MB of binaries (yt-dlp, bgutil-pot, plugin). Skip if you only need Spotify. Install YouTube support? (y/N)"@
                    && answer@ == "n"@
            },
            None => !services.youtube || installed,
        },
{
    if !services.youtube || installed {
        return None;
    }
    if default == Service::YouTube {
        Some(
            (
                "YouTube support requires extra binaries (~50 MB: yt-dlp, bgutil-pot, plugin). Download now? (Y/n)",
                "y",
            ),
        )
    } else {
        Some(
            (
                "You can also enable YouTube support. Downloads ~50 MB of binaries (yt-dlp, bgutil-pot, plugin). Skip if you only need Spotify. Install YouTube support? (y/N)",
                "n",
            ),
        )
    }
}

/// What to do about the systemd service after a setup.
#[derive(Debug, Clone, Copy, PartialEq, Eq, Structural)]
pub enum ServiceStep {
    /// Nothing: the bot goes on in the foreground, or there is no systemd.
    Skip,
    /// Offer to enable and start the new bot.
    OfferInstance,
    /// Ask whether to install the service.
    AskInstall,
}

/// What to do about the systemd service. Only a setup of its own offers it:
/// where the bot goes on in the foreground, an instance would run the same
/// config twice.
pub fn service_step(offer: bool, booted: bool, installed: bool) -> (r: ServiceStep)
    ensures
        r == (if !offer || !booted {
            ServiceStep::Skip
        } else if installed {
            ServiceStep::OfferInstance
        } else {
            ServiceStep::AskInstall
        }),
{
    if !offer || !booted {
        ServiceStep::Skip
    } else if installed {
        ServiceStep::OfferInstance
    } else {
        ServiceStep::AskInstall
    }
}

/// The warning about a cookies file that is not there; no path needs none.
pub fn cookies_warning(path: &str, there: bool) -> (r: Option<String>)
    ensures
        match r {
            Some(text) => path@.len() > 0 && !there && text@ == "  Warning: "@ + path@
                + " doesn't exist yet. Saving anyway — drop the file there later."@,
            None => path@.len() == 0 || there,
        },
{
    if path.is_empty() || there {
        return None;
    }
    let mut out = String::from_str("  Warning: ");
    out.append(path);
    out.append(" doesn't exist yet. Saving anyway — drop the file there later.");
    Some(out)
}

/// The last line of the wizard.
pub fn run_hint(program: &str, config_path: &str) -> (r: String)
    ensures
        r@ == "  Run the bot with: "@ + program@ + " --config "@ + config_path@,
{
    let mut out = String::from_str("  Run the bot with: ");
    out.append(program);
    out.append(" --config ");
    out.append(config_path);
    out
}

/// What to do about bgutil-pot from the command line: what to say, and whether
/// to install the latest.
pub fn bgutil_update(installed: &str, latest: &str) -> (r: (String, bool))
    ensures
        r.1 == (installed@ != latest@),
        r.0@ == (if installed@ == latest@ {
            "  bgutil-pot already on "@ + installed@ + " (latest)."@
        } else {
            "  Installed: "@ + installed@ + ", latest: "@ + latest@ + ". Updating..."@
        }),
{
    if same(installed, latest) {
        let mut out = String::from_str("  bgutil-pot already on ");
        out.append(installed);
        out.append(" (latest).");
        (out, false)
    } else {
        let mut out = String::from_str("  Installed: ");
        out.append(installed);
        out.append(", latest: ");
        out.append(latest);
        out.append(". Updating...");
        (out, true)
    }
}

/// What to say where there are no YouTube tools to update.
pub fn no_tools(platform: Platform) -> (r: String)
    ensures
        r@ == "  YouTube tools aren't installed yet. To install them, "@ + crate::hints::hint(
            platform,
            "use Install YouTube tools in the tray menu"@,
            " youtube install"@,
        ),
{
    line(
        "  YouTube tools aren't installed yet. To install them, ",
        install_youtube_tools(platform).as_str(),
    )
}

// ---- what the wizard keeps to ----

/// A bot that is limited to one service starts on that one.
pub proof fn a_single_service_is_the_default(d: DraftView, services: EnabledServices)
    requires
        services.only_spec() is Some,
    ensures
        with_services(d, services) matches Verdict::Accepted(draft, _) && Some(
            draft.default_service,
        ) == services.only_spec(),
{
}

/// A misread answer about the admins never hands out access: everyone is let
/// in only where that was chosen.
pub proof fn access_is_only_handed_out_on_purpose(d: DraftView, text: Seq<char>, known: Known)
    ensures
        taken(Question::AdminMode, d, text, known) matches Verdict::Accepted(draft, _) && (
        draft.admin_mode == AdminMode::Everyone) ==> menu_number(text, 4, "4"@) == Some(1nat),
{
}

/// The mode for both lets in exactly those whom one of the two would, nobody
/// without a right comes in but where everyone does, and where everyone does
/// nobody is kept out.
pub proof fn admin_modes_admit_by_their_rights(listed: bool, server_admin: bool)
    ensures
        AdminMode::Both.admits(listed, server_admin) == (AdminMode::TtRights.admits(
            listed,
            server_admin,
        ) || AdminMode::List.admits(listed, server_admin)),
        AdminMode::TtRights.admits(listed, server_admin) ==> server_admin,
        AdminMode::List.admits(listed, server_admin) ==> listed,
        AdminMode::Both.admits(listed, server_admin) ==> listed || server_admin,
        AdminMode::Everyone.admits(listed, server_admin),
        server_admin ==> AdminMode::TtRights.admits(listed, server_admin),
        listed ==> AdminMode::List.admits(listed, server_admin),
{
}

/// What is kept of the answer to a question about a text.
pub open spec fn kept_text(d: DraftView, q: Question) -> Option<Seq<char>> {
    match q {
        Question::Host => Some(d.host),
        Question::Username => Some(d.username),
        Question::Password => Some(d.password),
        Question::BotName => Some(d.bot_name),
        Question::Channel => Some(d.channel),
        Question::ChannelPassword => Some(d.channel_password),
        Question::LicenseName => Some(d.license_name),
        Question::LicenseKey => Some(d.license_key),
        Question::CookiesPath => Some(d.cookies_file),
        _ => None,
    }
}

/// The answer to a question about a text is kept as it was given.
pub proof fn an_answer_is_kept_as_given(d: DraftView, q: Question, text: Seq<char>, known: Known)
    requires
        kept_text(d, q) is Some,
    ensures
        taken(q, d, text, known) matches Verdict::Accepted(draft, _) && kept_text(draft, q) == Some(
            text,
        ),
{
}

/// An answer is kept under its own question alone: what was answered to the
/// others stays.
pub proof fn an_answer_leaves_the_others(
    d: DraftView,
    q: Question,
    other: Question,
    text: Seq<char>,
    known: Known,
)
    requires
        other != q,
        !(q is WantCookies && other is CookiesPath),
        taken(q, d, text, known) is Accepted,
    ensures
        kept_text(taken(q, d, text, known)->Accepted_0, other) == kept_text(d, other),
{
    lemma_unchanged(d, q, text, known);
}

spec fn same_texts(a: DraftView, b: DraftView) -> bool {
    &&& a.host == b.host
    &&& a.username == b.username
    &&& a.password == b.password
    &&& a.bot_name == b.bot_name
    &&& a.channel == b.channel
    &&& a.channel_password == b.channel_password
    &&& a.license_name == b.license_name
    &&& a.license_key == b.license_key
}

proof fn lemma_unchanged(d: DraftView, q: Question, text: Seq<char>, known: Known)
    requires
        taken(q, d, text, known) is Accepted,
    ensures
        kept_text(d, q) is None ==> same_texts(taken(q, d, text, known)->Accepted_0, d),
        !(q is WantCookies) && !(q is CookiesPath) ==> taken(q, d, text, known)->Accepted_0.cookies_file
            == d.cookies_file,
{
}

/// What is no text is kept under its own question alone too.
pub proof fn an_answer_leaves_the_other_choices(
    d: DraftView,
    q: Question,
    text: Seq<char>,
    known: Known,
)
    requires
        taken(q, d, text, known) is Accepted,
    ensures
        ({
            let draft = taken(q, d, text, known)->Accepted_0;
            &&& !(q is TcpPort) ==> draft.tcp_port == d.tcp_port
            &&& !(q is UdpPort) ==> draft.udp_port == d.udp_port
            &&& !(q is AdminMode) ==> draft.admin_mode == d.admin_mode
            &&& !(q is Admins) ==> draft.admins == d.admins
            &&& !(q is Language) ==> draft.language == d.language
            &&& !(q is Services) ==> draft.services == d.services
        }),
{
}

/// A port that is written in digits is taken as that number.
pub proof fn a_port_is_taken_as_given(d: DraftView, n: nat, known: Known)
    requires
        n <= i32::MAX,
    ensures
        taken(Question::TcpPort, d, digits(n), known) matches Verdict::Accepted(draft, _)
            && draft.tcp_port == n,
        taken(Question::UdpPort, d, digits(n), known) matches Verdict::Accepted(draft, _)
            && draft.udp_port == n,
        prompt_of(Question::UdpPort, DraftView { tcp_port: n as i32, ..d }, known).default
            == digits(n),
{
    crate::text::decimal_round_trip(n);
}

/// The place of a question in the order in which they are put.
pub open spec fn place(q: Question) -> int {
    match q {
        Question::Overwrite => 0,
        Question::Host => 1,
        Question::TcpPort => 2,
        Question::UdpPort => 3,
        Question::Username => 4,
        Question::Password => 5,
        Question::BotName => 6,
        Question::Channel => 7,
        Question::ChannelPassword => 8,
        Question::AdminMode => 9,
        Question::Admins => 10,
        Question::Language => 11,
        Question::LicenseName => 12,
        Question::LicenseKey => 13,
        Question::Services => 14,
        Question::DefaultService => 15,
        Question::WantCookies => 16,
        Question::CookiesPath => 17,
        Question::Finished => 18,
    }
}

/// Every answer leads to a later question, so none is put twice; and only
/// those are left out that the answers make needless: the names of the admins
/// where no list counts, the default of a single service, and the cookies of
/// a bot without YouTube.
pub proof fn questions_are_put_in_order(d: DraftView, q: Question, text: Seq<char>, known: Known)
    requires
        q != Question::Finished,
    ensures
        taken(q, d, text, known) matches Verdict::Accepted(draft, next) ==> {
            &&& place(q) < place(next)
            &&& place(next) > place(q) + 1 ==> {
                ||| q is AdminMode && next is Language && !draft.admin_mode.admits(true, false)
                ||| q is AdminMode && next is Language && draft.admin_mode == AdminMode::Everyone
                ||| q is Services && next is WantCookies && !draft.services.spotify
                ||| q is Services && next is Finished && !draft.services.youtube
                ||| q is WantCookies && next is Finished && draft.cookies_file.len() == 0
            }
        },
{
    reveal_strlit("");
}

/// A usernames list is read as the names that were written, whatever spaces
/// stand around the commas.
pub proof fn admin_names_are_read_back(names: Seq<Seq<char>>)
    requires
        names.len() > 0,
        forall|i: int|
            0 <= i < names.len() ==> (#[trigger] names[i]).len() > 0 && trimmed(names[i])
                == names[i] && !names[i].contains(','),
    ensures
        admin_names(joined(names, ","@)) == names,
{
    reveal_strlit(",");
    assert(","@ =~= seq![',']);
    crate::text::splitting_undoes_joining(names, ',');
    lemma_all_names(names);
}

proof fn lemma_all_names(names: Seq<Seq<char>>)
    requires
        forall|i: int|
            0 <= i < names.len() ==> (#[trigger] names[i]).len() > 0 && trimmed(names[i])
                == names[i],
    ensures
        names_among(names) == names,
    decreases names.len(),
{
    if names.len() > 0 {
        let p = names.drop_last();
        assert(names[names.len() - 1] == names.last());
        assert forall|i: int| 0 <= i < p.len() implies (#[trigger] p[i]).len() > 0 && trimmed(p[i])
            == p[i] by {
            assert(p[i] == names[i]);
        }
        lemma_all_names(p);
        assert(p.push(names.last()) =~= names);
    } else {
        assert(names_among(names) =~= names);
    }
}

/// Nobody without a name is an admin, and no name has spaces around it.
pub proof fn admin_names_are_real_names(parts: Seq<Seq<char>>, i: int)
    requires
        0 <= i < names_among(parts).len(),
    ensures
        names_among(parts)[i].len() > 0,
        exists|k: int| 0 <= k < parts.len() && names_among(parts)[i] == trimmed(#[trigger] parts[k]),
    decreases parts.len(),
{
    let p = parts.drop_last();
    if i < names_among(p).len() {
        admin_names_are_real_names(p, i);
        let k = choose|k: int|
            0 <= k < p.len() && names_among(p)[i] == trimmed(#[trigger] p[k]);
        assert(parts[k] == p[k]);
    } else {
        assert(parts[parts.len() - 1] == parts.last());
    }
}

/// A number beyond the choices, or none, is never taken for one; an empty
/// answer is the default.
pub proof fn a_choice_is_one_of_those_offered(input: Seq<char>, choices: u8, default: Seq<char>)
    ensures
        menu_number(input, choices, default) matches Some(n) ==> 1 <= n <= choices,
        trimmed(input).len() == 0 ==> menu_number(input, choices, default) == menu_number(
            default,
            choices,
            default,
        ) || trimmed(default) != default,
        forall|n: nat|
            1 <= n <= choices ==> #[trigger] menu_number(digits(n), choices, default) == Some(n),
{
    assert forall|n: nat| 1 <= n <= choices implies #[trigger] menu_number(
        digits(n),
        choices,
        default,
    ) == Some(n) by {
        crate::text::decimal_round_trip(n);
        crate::text::lemma_digits(n);
        let d = digits(n);
        assert(crate::text::is_digit(d[0]));
        assert(crate::text::is_digit(d[d.len() - 1]));
        crate::text::nothing_to_trim(d);
    }
}

/// An answer that says something is taken without the spaces around it; one
/// that says nothing is the default, and only a required question without one
/// is put again.
pub proof fn an_empty_answer_is_the_default(line: Seq<char>, default: Seq<char>, required: bool)
    ensures
        trimmed(line).len() > 0 ==> reply_to(line, default, required) == Some(trimmed(line)),
        trimmed(line).len() == 0 && default.len() > 0 ==> reply_to(line, default, required)
            == Some(default),
        reply_to(line, default, required) is None <==> trimmed(line).len() == 0 && default.len()
            == 0 && required,
{
}

/// No answer is both yes and no.
pub proof fn yes_is_not_no(text: Seq<char>)
    ensures
        !(says_yes(text) && says_no(text)),
{
    reveal_strlit("y");
    reveal_strlit("yes");
    reveal_strlit("n");
    reveal_strlit("no");
    assert(folded("y"@).len() == 1 && folded("y"@)[0] == 'y');
    assert(folded("yes"@).len() == 3);
    assert(folded("n"@).len() == 1 && folded("n"@)[0] == 'n');
    assert(folded("no"@).len() == 2);
}

/// What a config has where a question about a text was answered.
pub open spec fn text_in(c: BotConfig, q: Question) -> Option<Seq<char>> {
    match q {
        Question::Host => Some(c.host@),
        Question::Username => Some(c.username@),
        Question::Password => Some(c.password@),
        Question::BotName => Some(c.bot_name@),
        Question::Channel => Some(c.channel_name@),
        Question::ChannelPassword => Some(c.channel_password@),
        Question::LicenseName => match c.license_name {
            Some(name) => Some(name@),
            None => None,
        },
        Question::LicenseKey => match c.license_key {
            Some(key) => Some(key@),
            None => None,
        },
        Question::CookiesPath => Some(c.youtube_cookies_file@),
        _ => None,
    }
}

/// What was answered is what the config has in that place, and ports are under
/// their own protocol.
pub proof fn an_answer_ends_up_in_the_config(
    d: DraftView,
    q: Question,
    text: Seq<char>,
    known: Known,
    c: BotConfig,
)
    requires
        text.len() > 0,
        taken(q, d, text, known) matches Verdict::Accepted(draft, _) && holds_answers(c, draft),
    ensures
        kept_text(d, q) is Some ==> text_in(c, q) == Some(text),
        q == Question::TcpPort ==> port_number(text) == Some(c.tcp_port as int) && c.udp_port
            == d.udp_port,
        q == Question::UdpPort ==> port_number(text) == Some(c.udp_port as int) && c.tcp_port
            == d.tcp_port,
        q == Question::DefaultService ==> c.default_service == service_named(text),
{
}

/// A bot always has a service, each can be left out, and a name that is known
/// is taken for its service; any other is taken for Spotify.
pub proof fn services_are_taken_as_chosen(n: nat, text: Seq<char>)
    ensures
        services_of(n).spotify || services_of(n).youtube,
        services_of(n).only_spec() == Some(Service::Spotify) <==> n == 2,
        services_of(n).only_spec() == Some(Service::YouTube) <==> n == 3,
        named_service(lowercase(trimmed(text))) matches Some(service) ==> service_named(text)
            == service,
        named_service(lowercase(trimmed(text))) is None ==> service_named(text)
            == Service::Spotify,
{
}

/// Going away in the middle cancels, and a question that must be answered is
/// put again; neither changes what has been answered.
pub proof fn nothing_is_made_of_no_answer(
    q: Question,
    d: DraftView,
    known: Known,
    step: Step,
    was: Wizard,
    now: Wizard,
)
    requires
        was.draft@ == d,
        q != Question::WantCookies,
        follows(judged(q, d, None, known), step, was, now),
    ensures
        step is Cancelled,
        now == was,
{
}

} // verus!
