//! The systemd user service (Linux only).
//!
//! A template unit runs several bots, one instance per config, as
//! `ttspotify@myserver`. What systemctl and loginctl print is read here, and
//! the unit file is written here; running them is left to the caller.
use vstd::prelude::*;
use vstd::string::*;

use crate::config::{is_yes, yes, EXIT_CONFIG_ERROR};
use crate::paths::{join_path, joined_path, text_of, PathStyle};
use crate::text::{
    all_trimmed, decimal, digits, ends_with, find_after, first_after, first, hex, hex_digits,
    hex_digit_spec, is_ascii_alnum, is_one_of, lemma_digits, lemma_first_from, lemma_views_push,
    leading_lines, lines, nothing_to_trim, one_line, parse_unsigned, same, split, split_at_all,
    split_lines, split_words, starts_with, strip_prefix, text_of_lines, trim, trim_all, trimmed,
    unsigned, views, words, write_lines,
};

verus! {

pub const SERVICE_NAME: &'static str = "ttspotify@.service";

/// Version of the generated unit file's content. Bump whenever the content
/// changes in a way installed units should pick up; an update then offers to
/// rewrite older installed units. Files without a stamp read as 0.
pub const UNIT_FILE_VERSION: u32 = 4;

/// The directory for the user's own units.
pub fn systemd_dir(config_base: Option<&str>) -> (r: String)
    ensures
        r@ == joined_path(
            PathStyle::Unix,
            joined_path(
                PathStyle::Unix,
                match config_base {
                    Some(base) => base@,
                    None => ".config"@,
                },
                "systemd"@,
            ),
            "user"@,
        ),
{
    let base = match config_base {
        Some(base) => base,
        None => ".config",
    };
    join_path(PathStyle::Unix, join_path(PathStyle::Unix, base, "systemd").as_str(), "user")
}

/// Where the template unit is installed.
pub fn unit_path(systemd_dir: &str) -> (r: String)
    ensures
        r@ == joined_path(PathStyle::Unix, systemd_dir@, SERVICE_NAME@),
{
    join_path(PathStyle::Unix, systemd_dir, SERVICE_NAME)
}

/// Where systemd puts the symlink that marks an instance as enabled. Our unit
/// is wanted by `default.target`, so that is the only target to look in.
pub fn wants_symlink(systemd_dir: &str, unit: &str) -> (r: String)
    ensures
        r@ == joined_path(
            PathStyle::Unix,
            joined_path(PathStyle::Unix, systemd_dir@, "default.target.wants"@),
            unit@,
        ),
{
    let wants = join_path(PathStyle::Unix, systemd_dir, "default.target.wants");
    join_path(PathStyle::Unix, wants.as_str(), unit)
}

// ---- the version stamp ----

/// The version in the stamp of a unit file: 0 when it is absent or cannot be
/// read.
pub open spec fn stamped_version(contents: Seq<char>) -> nat {
    match first_after(lines(contents), "# ttspotify-unit-version: "@) {
        Some(text) => match unsigned(trimmed(text)) {
            Some(version) => if version <= u32::MAX {
                version
            } else {
                0
            },
            None => 0,
        },
        None => 0,
    }
}

/// Read the version stamp out of a unit file's contents (0 when absent or
/// unparsable: always older than any current version).
pub fn unit_version_from_contents(contents: &str) -> (r: u32)
    ensures
        r == stamped_version(contents@),
{
    match find_after(&split_lines(contents), "# ttspotify-unit-version: ") {
        Some(text) => match parse_unsigned(trim(text.as_str()), u32::MAX as u64) {
            Some(version) => version as u32,
            None => 0,
        },
        None => 0,
    }
}

/// Version stamp of the installed unit file, and the version this build
/// writes, so a check can say whether a refresh is waiting.
pub fn installed_unit_version(unit: Option<&str>) -> (r: Option<(u32, u32)>)
    ensures
        match unit {
            Some(contents) => r matches Some((installed, ours)) && installed == stamped_version(
                contents@,
            ) && ours == UNIT_FILE_VERSION,
            None => r is None,
        },
{
    match unit {
        Some(contents) => Some((unit_version_from_contents(contents), UNIT_FILE_VERSION)),
        None => None,
    }
}

/// Whether to offer to rewrite the installed unit: there is one, and it
/// predates the current template.
pub fn wants_refresh(unit: Option<&str>) -> (r: bool)
    ensures
        r == (match unit {
            Some(contents) => stamped_version(contents@) < UNIT_FILE_VERSION,
            None => false,
        }),
{
    match unit {
        Some(contents) => unit_version_from_contents(contents) < UNIT_FILE_VERSION,
        None => false,
    }
}

// ---- instance names ----

/// Whether a byte stands for itself in the name of an instance. A dot does
/// not in front.
pub open spec fn addressable(b: u8, in_front: bool) -> bool {
    (b < 128 && is_ascii_alnum(b as char)) || b == 0x3a || b == 0x5f || (b == 0x2e && !in_front)
}

/// How a byte is written in the name of an instance.
pub open spec fn escaped_byte(b: u8, in_front: bool) -> Seq<char> {
    if b == 0x2f {
        seq!['-']
    } else if addressable(b, in_front) {
        seq![b as char]
    } else {
        seq!['\\', 'x'] + hex_digits(b as nat, 2)
    }
}

/// How some bytes are written, `in_front` telling whether the first of them
/// is the first of the name.
pub open spec fn escaped_bytes(bytes: Seq<u8>, in_front: bool) -> Seq<char>
    decreases bytes.len(),
{
    if bytes.len() == 0 {
        seq![]
    } else {
        escaped_byte(bytes[0], in_front) + escaped_bytes(bytes.drop_first(), false)
    }
}

/// The name of the instance for a config.
pub open spec fn instance_of(name: Seq<char>) -> Seq<char> {
    escaped_bytes(vstd::utf8::encode_utf8(name), true)
}

/// Escape a config name for use as a systemd template instance, as
/// `systemd-escape` does: `/` becomes `-`, a leading `.` and every byte outside
/// `[A-Za-z0-9:_.]` become `\xNN`. Without this, a config like
/// `my server.json` yields an instance string systemctl can't address.
pub fn systemd_escape_instance(name: &str) -> (r: String)
    ensures
        r@ == instance_of(name@),
{
    let bytes = name.as_bytes_vec();
    let mut out = String::new();
    let mut i: usize = 0;
    assert(bytes@.skip(0) =~= bytes@);
    while i < bytes.len()
        invariant
            i <= bytes.len(),
            bytes@ == vstd::utf8::encode_utf8(name@),
            out@ + escaped_bytes(bytes@.skip(i as int), i == 0) == instance_of(name@),
        decreases bytes.len() - i,
    {
        let b = bytes[i];
        let ghost before = out@;
        let ghost rest = bytes@.skip(i as int);
        let allowed = (b < 128 && is_ascii_alnum(b as char)) || b == 0x3a || b == 0x5f || (b == 0x2e
            && i != 0);
        if b == 0x2f {
            out.push('-');
        } else if allowed {
            out.push(b as char);
        } else {
            out.push('\\');
            out.push('x');
            out.append(hex(b as u64, 2).as_str());
        }
        proof {
            assert(out@ =~= before + escaped_byte(b, i == 0));
            assert(rest.drop_first() =~= bytes@.skip(i + 1));
            assert(before + (escaped_byte(b, i == 0) + escaped_bytes(bytes@.skip(i + 1), false))
                =~= out@ + escaped_bytes(bytes@.skip(i + 1), false));
        }
        i += 1;
    }
    assert(out@ + escaped_bytes(bytes@.skip(i as int), false) =~= out@);
    out
}

proof fn lemma_two_hex_digits(b: u8)
    ensures
        hex_digits(b as nat, 2) == seq![
            hex_digit_spec((b / 16) as int),
            hex_digit_spec((b % 16) as int),
        ],
{
    reveal_with_fuel(hex_digits, 3);
    assert(hex_digits(b as nat, 2) =~= seq![
        hex_digit_spec((b / 16) as int),
        hex_digit_spec((b % 16) as int),
    ]);
}

proof fn lemma_escaped_byte(b: u8, in_front: bool)
    ensures
        escaped_byte(b, in_front).len() == if b == 0x2f || addressable(b, in_front) {
            1nat
        } else {
            4nat
        },
        (escaped_byte(b, in_front)[0] == '\\') == (escaped_byte(b, in_front).len() == 4),
{
    lemma_two_hex_digits(b);
}

proof fn lemma_escaped_bytes_injective(a: Seq<u8>, b: Seq<u8>, in_front: bool)
    requires
        escaped_bytes(a, in_front) == escaped_bytes(b, in_front),
    ensures
        a == b,
    decreases a.len(),
{
    if a.len() > 0 {
        lemma_escaped_byte(a[0], in_front);
    }
    if b.len() > 0 {
        lemma_escaped_byte(b[0], in_front);
    }
    let s = escaped_bytes(a, in_front);
    let t = escaped_bytes(b, in_front);
    if a.len() > 0 && b.len() > 0 {
        let x = escaped_byte(a[0], in_front);
        let y = escaped_byte(b[0], in_front);
        let xs = escaped_bytes(a.drop_first(), false);
        let ys = escaped_bytes(b.drop_first(), false);
        assert(s[0] == x[0]);
        assert(t[0] == y[0]);
        assert(x.len() == y.len());
        assert forall|i: int| 0 <= i < x.len() implies x[i] == y[i] by {
            assert(s[i] == x[i]);
            assert(t[i] == y[i]);
        }
        assert(s.skip(x.len() as int) =~= xs);
        assert(t.skip(x.len() as int) =~= ys);
        lemma_two_hex_digits(a[0]);
        lemma_two_hex_digits(b[0]);
        assert(a[0] == b[0]) by {
            if x.len() == 4 {
                assert(x[2] == hex_digit_spec((a[0] / 16) as int));
                assert(x[3] == hex_digit_spec((a[0] % 16) as int));
                assert(y[2] == hex_digit_spec((b[0] / 16) as int));
                assert(y[3] == hex_digit_spec((b[0] % 16) as int));
                assert(a[0] / 16 == b[0] / 16);
                assert(a[0] % 16 == b[0] % 16);
            }
        }
        lemma_escaped_bytes_injective(a.drop_first(), b.drop_first(), false);
        assert(a =~= seq![a[0]] + a.drop_first());
        assert(b =~= seq![b[0]] + b.drop_first());
    } else {
        assert(a.len() == 0 && b.len() == 0) by {
            if a.len() > 0 {
                assert(s.len() >= 1);
                assert(t.len() == 0);
            }
            if b.len() > 0 {
                assert(t.len() >= 1);
                assert(s.len() == 0);
            }
        }
        assert(a =~= b);
    }
}

/// Two configs never share an instance.
pub proof fn different_bots_have_different_instances(one: Seq<char>, other: Seq<char>)
    requires
        instance_of(one) == instance_of(other),
    ensures
        one == other,
{
    lemma_escaped_bytes_injective(
        vstd::utf8::encode_utf8(one),
        vstd::utf8::encode_utf8(other),
        true,
    );
    vstd::utf8::encode_utf8_decode_utf8(one);
    vstd::utf8::encode_utf8_decode_utf8(other);
}

/// Whether a character is one that systemctl can address an instance by.
pub open spec fn in_instance_names(c: char) -> bool {
    is_ascii_alnum(c) || c == ':' || c == '_' || c == '.' || c == '-' || c == '\\'
}

proof fn lemma_escaped_bytes_addressable(bytes: Seq<u8>, in_front: bool)
    ensures
        forall|i: int|
            0 <= i < escaped_bytes(bytes, in_front).len() ==> in_instance_names(
                #[trigger] escaped_bytes(bytes, in_front)[i],
            ),
    decreases bytes.len(),
{
    if bytes.len() > 0 {
        lemma_escaped_bytes_addressable(bytes.drop_first(), false);
        let x = escaped_byte(bytes[0], in_front);
        lemma_escaped_byte(bytes[0], in_front);
        lemma_two_hex_digits(bytes[0]);
        assert forall|i: int| 0 <= i < escaped_bytes(bytes, in_front).len() implies in_instance_names(
            #[trigger] escaped_bytes(bytes, in_front)[i],
        ) by {
            if i < x.len() {
                assert(escaped_bytes(bytes, in_front)[i] == x[i]);
            } else {
                assert(escaped_bytes(bytes, in_front)[i] == escaped_bytes(
                    bytes.drop_first(),
                    false,
                )[i - x.len()]);
            }
        }
    }
}

/// The name of an instance holds no space, no slash and nothing else that
/// systemctl could not address it by.
pub proof fn instances_can_be_addressed(name: Seq<char>)
    ensures
        forall|i: int|
            0 <= i < instance_of(name).len() ==> in_instance_names(#[trigger] instance_of(name)[i]),
{
    lemma_escaped_bytes_addressable(vstd::utf8::encode_utf8(name), true);
}

// ---- who is logged in ----

/// Current login name, for loginctl calls: `$USER`, or what `id -un` printed.
pub open spec fn login_name(user: Option<Seq<char>>, printed: Option<Seq<char>>) -> Seq<char> {
    match user {
        Some(name) if name.len() > 0 => name,
        _ => match printed {
            Some(text) => trimmed(text),
            None => ""@,
        },
    }
}

/// The login name lingering would be enabled for.
pub fn linger_user(user: Option<&str>, printed: Option<&str>) -> (r: String)
    ensures
        r@ == login_name(text_of(user), text_of(printed)),
{
    if let Some(name) = user {
        if !name.is_empty() {
            return name.to_owned();
        }
    }
    match printed {
        Some(text) => trim(text).to_owned(),
        None => String::from_str(""),
    }
}

/// Whether user services survive logout, from what loginctl printed about the
/// user. `None` when the answer cannot be determined (no loginctl, or no idea
/// who we are).
pub fn linger_state(user: &str, printed: Option<&str>) -> (r: Option<bool>)
    ensures
        r == (if user@.len() == 0 {
            None::<bool>
        } else {
            match printed {
                Some(text) => Some(trimmed(text@) == "Linger=yes"@),
                None => None,
            }
        }),
{
    if user.is_empty() {
        return None;
    }
    match printed {
        Some(text) => Some(same(trim(text), "Linger=yes")),
        None => None,
    }
}

// ---- the unit file ----

/// How the unit starts a bot: the binary and the config path are quoted so
/// that spaces in either don't break the unit. `%I` is the instance name
/// unescaped, because the config file on disk uses the original name.
pub open spec fn exec_start_text(exe: Seq<char>, config_base: Seq<char>) -> Seq<char> {
    "\""@ + exe + "\" --config \""@ + config_base + "/%I.json\""@
}

pub fn exec_start(exe: &str, config_base: &str) -> (r: String)
    ensures
        r@ == exec_start_text(exe@, config_base@),
{
    let mut out = String::from_str("\"");
    out.append(exe);
    out.append("\" --config \"");
    out.append(config_base);
    out.append("/%I.json\"");
    out
}

/// The line that lets the bot write to the tools folder.
pub open spec fn tools_lines(tools_dir: Option<Seq<char>>) -> Seq<Seq<char>> {
    match tools_dir {
        Some(dir) => seq!["ReadWritePaths=-"@ + dir],
        None => seq![],
    }
}

/// The lines of the unit up to the one that starts the bot.
pub open spec fn unit_head(config_dir: Seq<char>) -> Seq<Seq<char>> {
    seq![
        "# ttspotify-unit-version: "@ + digits(UNIT_FILE_VERSION as nat),
        "[Unit]"@,
        "Description=TTSpotify Bot (%i)"@,
        "After=network-online.target"@,
        "Wants=network-online.target"@,
        ""@,
        "[Service]"@,
        "Type=simple"@,
        "WorkingDirectory="@ + config_dir,
    ]
}

/// How the bot is started and when it is started again. A missing or broken
/// config is not tried again.
pub open spec fn unit_start(exec_start: Seq<char>) -> Seq<Seq<char>> {
    seq![
        "ExecStart="@ + exec_start,
        "Restart=on-failure"@,
        "RestartPreventExitStatus="@ + digits(EXIT_CONFIG_ERROR as nat),
        "RestartSec=2"@,
        "# The bot answers SIGTERM by leaving the TeamTalk channel before it exits, so"@,
        "# systemd is asked to wait for that instead of killing it mid-logout."@,
        "TimeoutStopSec=20"@,
        ""@,
    ]
}

/// The sandbox: everything is read-only to the bot except its own folders. The
/// `-` keeps a path that is not there yet from failing the unit.
pub open spec fn unit_sandbox(config_dir: Seq<char>) -> Seq<Seq<char>> {
    seq![
        "# Sandbox: everything is read-only to the bot except the paths below."@,
        "# Using a custom --config path in ExecStart? Add its folder as another"@,
        "# ReadWritePaths line. If the service fails to start on a kernel without"@,
        "# unprivileged user namespaces, delete this block."@,
        "ProtectSystem=strict"@,
        "PrivateTmp=true"@,
        "NoNewPrivileges=true"@,
        "ReadWritePaths=-"@ + config_dir,
    ]
}

pub open spec fn unit_tail() -> Seq<Seq<char>> {
    seq![
        "ReadWritePaths=-%h/.local/share/ttspotify"@,
        "ReadWritePaths=-%h/.cache"@,
        ""@,
        "[Install]"@,
        "WantedBy=default.target"@,
    ]
}

/// The lines of the unit file.
pub open spec fn unit_lines(
    exec_start: Seq<char>,
    config_dir: Seq<char>,
    tools_dir: Option<Seq<char>>,
) -> Seq<Seq<char>> {
    unit_head(config_dir) + unit_start(exec_start) + unit_sandbox(config_dir) + tools_lines(
        tools_dir,
    ) + unit_tail()
}

fn labelled(label: &str, text: &str) -> (r: String)
    ensures
        r@ == label@ + text@,
{
    let mut out = label.to_owned();
    out.append(text);
    out
}

fn append_all(list: &mut Vec<String>, more: Vec<String>)
    ensures
        views(final(list)@) == views(old(list)@) + views(more@),
{
    let ghost before = list@;
    let mut more = more;
    let ghost added = more@;
    list.append(&mut more);
    assert(views(list@) =~= views(before) + views(added));
}

/// Render the `ttspotify@.service` user unit.
pub fn unit_file_contents(exec_start: &str, config_dir: &str, tools_dir: Option<&str>) -> (r:
    String)
    ensures
        r@ == text_of_lines(unit_lines(exec_start@, config_dir@, text_of(tools_dir))),
{
    let mut all = vec![
        labelled("# ttspotify-unit-version: ", decimal(UNIT_FILE_VERSION as u64).as_str()),
        String::from_str("[Unit]"),
        String::from_str("Description=TTSpotify Bot (%i)"),
        String::from_str("After=network-online.target"),
        String::from_str("Wants=network-online.target"),
        String::from_str(""),
        String::from_str("[Service]"),
        String::from_str("Type=simple"),
        labelled("WorkingDirectory=", config_dir),
    ];
    assert(views(all@) =~= unit_head(config_dir@));
    let start = vec![
        labelled("ExecStart=", exec_start),
        String::from_str("Restart=on-failure"),
        labelled("RestartPreventExitStatus=", decimal(EXIT_CONFIG_ERROR as u64).as_str()),
        String::from_str("RestartSec=2"),
        String::from_str(
            "# The bot answers SIGTERM by leaving the TeamTalk channel before it exits, so",
        ),
        String::from_str(
            "# systemd is asked to wait for that instead of killing it mid-logout.",
        ),
        String::from_str("TimeoutStopSec=20"),
        String::from_str(""),
    ];
    assert(views(start@) =~= unit_start(exec_start@));
    append_all(&mut all, start);
    let sandbox = vec![
        String::from_str(
            "# Sandbox: everything is read-only to the bot except the paths below.",
        ),
        String::from_str(
            "# Using a custom --config path in ExecStart? Add its folder as another",
        ),
        String::from_str(
            "# ReadWritePaths line. If the service fails to start on a kernel without",
        ),
        String::from_str("# unprivileged user namespaces, delete this block."),
        String::from_str("ProtectSystem=strict"),
        String::from_str("PrivateTmp=true"),
        String::from_str("NoNewPrivileges=true"),
        labelled("ReadWritePaths=-", config_dir),
    ];
    assert(views(sandbox@) =~= unit_sandbox(config_dir@));
    append_all(&mut all, sandbox);
    let mut tools: Vec<String> = Vec::new();
    if let Some(dir) = tools_dir {
        tools.push(labelled("ReadWritePaths=-", dir));
    }
    assert(views(tools@) =~= tools_lines(text_of(tools_dir)));
    append_all(&mut all, tools);
    let tail = vec![
        String::from_str("ReadWritePaths=-%h/.local/share/ttspotify"),
        String::from_str("ReadWritePaths=-%h/.cache"),
        String::from_str(""),
        String::from_str("[Install]"),
        String::from_str("WantedBy=default.target"),
    ];
    assert(views(tail@) =~= unit_tail());
    append_all(&mut all, tail);
    write_lines(&all)
}

// ---- what a unit runs ----

/// A text up to the first quote.
pub open spec fn before_quote(s: Seq<char>) -> Seq<char> {
    split(s, "\""@)[0]
}

/// The binary in the text after `ExecStart=`.
pub open spec fn binary_in(command: Seq<char>) -> Option<Seq<char>> {
    let line = trimmed(command);
    if line.len() > 0 && line[0] == '"' {
        let name = before_quote(line.skip(1));
        if name.len() > 0 {
            Some(name)
        } else {
            None
        }
    } else if words(line).len() > 0 {
        Some(words(line)[0])
    } else {
        None
    }
}

/// The binary that a unit runs.
pub open spec fn binary_of_unit(unit: Seq<char>) -> Option<Seq<char>> {
    match first_after(all_trimmed(lines(unit)), "ExecStart="@) {
        Some(command) => binary_in(command),
        None => None,
    }
}

/// The binary an installed unit runs, as written in its `ExecStart`.
///
/// We quote the path so spaces survive, so the quoted form is the one that
/// matters; the bare form is read too in case someone edited the unit by hand.
pub fn exec_start_binary(unit: &str) -> (r: Option<String>)
    ensures
        match r {
            Some(name) => binary_of_unit(unit@) == Some(name@),
            None => binary_of_unit(unit@) is None,
        },
{
    let command = match find_after(&trim_all(&split_lines(unit)), "ExecStart=") {
        Some(command) => command,
        None => {
            return None;
        },
    };
    let line = trim(command.as_str());
    proof {
        reveal_strlit("\"");
        if "\""@.is_prefix_of(line@) {
            assert(line@[0] == "\""@[0]);
        } else if line@.len() > 0 && line@[0] == '"' {
            assert(line@.subrange(0, 1) =~= "\""@);
        }
    }
    match strip_prefix(line, "\"") {
        Some(rest) => {
            let parts = split_at_all(rest, "\"");
            proof {
                crate::text::lemma_split_not_empty(rest@, "\""@);
                assert(views(parts@)[0] == parts@[0]@);
            }
            if parts[0].as_str().is_empty() {
                None
            } else {
                Some(parts[0].clone())
            }
        },
        None => {
            let parts = split_words(line);
            if parts.len() > 0 {
                assert(views(parts@)[0] == parts@[0]@);
                Some(parts[0].clone())
            } else {
                None
            }
        },
    }
}

proof fn lemma_stamp_is_a_line(config_dir: Seq<char>)
    ensures
        one_line(unit_head(config_dir)[0]),
{
    reveal_strlit("# ttspotify-unit-version: ");
    lemma_digits(UNIT_FILE_VERSION as nat);
}

proof fn lemma_head_is_lines(config_dir: Seq<char>)
    requires
        one_line(config_dir),
    ensures
        forall|i: int|
            0 <= i < unit_head(config_dir).len() ==> one_line(#[trigger] unit_head(config_dir)[i]),
{
    lemma_stamp_is_a_line(config_dir);
    reveal_strlit("[Unit]");
    reveal_strlit("Description=TTSpotify Bot (%i)");
    reveal_strlit("After=network-online.target");
    reveal_strlit("Wants=network-online.target");
    reveal_strlit("");
    reveal_strlit("[Service]");
    reveal_strlit("Type=simple");
    reveal_strlit("WorkingDirectory=");
    assert(one_line(unit_head(config_dir)[8]));
}

/// A unit file that we write carries the current version.
pub proof fn our_unit_carries_the_current_version(
    exec_start: Seq<char>,
    config_dir: Seq<char>,
    tools_dir: Option<Seq<char>>,
)
    ensures
        stamped_version(text_of_lines(unit_lines(exec_start, config_dir, tools_dir)))
            == UNIT_FILE_VERSION,
{
    let all = unit_lines(exec_start, config_dir, tools_dir);
    lemma_stamp_is_a_line(config_dir);
    leading_lines(all, 1);
    assert(lines(text_of_lines(all)).take(1)[0] == all.take(1)[0]);
    let stamp = "# ttspotify-unit-version: "@;
    let version = digits(UNIT_FILE_VERSION as nat);
    assert(all[0] == stamp + version);
    assert(stamp.is_prefix_of(stamp + version)) by {
        assert((stamp + version).subrange(0, stamp.len() as int) =~= stamp);
    }
    assert((stamp + version).skip(stamp.len() as int) =~= version);
    lemma_digits(UNIT_FILE_VERSION as nat);
    nothing_to_trim(version);
    crate::text::decimal_round_trip(UNIT_FILE_VERSION as nat);
}

proof fn lemma_not_the_command(texts: Seq<Seq<char>>, i: int)
    requires
        0 <= i < texts.len(),
        texts[i].len() > 0 ==> texts[i][0] != 'E' && !crate::text::is_white(texts[i][0]),
    ensures
        !"ExecStart="@.is_prefix_of(all_trimmed(texts)[i]),
{
    reveal_strlit("ExecStart=");
    let t = trimmed(texts[i]);
    crate::text::lemma_trimmed_front(texts[i]);
    if "ExecStart="@.is_prefix_of(t) {
        assert(t.subrange(0, 10)[0] == "ExecStart="@[0]);
    }
}

proof fn lemma_first_after_at(texts: Seq<Seq<char>>, prefix: Seq<char>, i: int)
    requires
        0 <= i < texts.len(),
        prefix.is_prefix_of(texts[i]),
        forall|k: int| 0 <= k < i ==> !prefix.is_prefix_of(#[trigger] texts[k]),
    ensures
        first_after(texts, prefix) == Some(texts[i].skip(prefix.len() as int)),
    decreases i,
{
    if i > 0 {
        assert(texts.skip(1)[i - 1] == texts[i]);
        assert forall|k: int| 0 <= k < i - 1 implies !prefix.is_prefix_of(
            #[trigger] texts.skip(1)[k],
        ) by {
            assert(texts.skip(1)[k] == texts[k + 1]);
        }
        lemma_first_after_at(texts.skip(1), prefix, i - 1);
    }
}

proof fn lemma_quoted_first(exe: Seq<char>, rest: Seq<char>)
    requires
        !exe.contains('"'),
    ensures
        before_quote(exe + "\""@ + rest) == exe,
{
    reveal_strlit("\"");
    let s = exe + "\""@ + rest;
    let n = exe.len() as int;
    lemma_first_from(s, "\""@, 0);
    assert(s.subrange(n, n + 1) =~= "\""@);
    assert(crate::text::at(s, n, "\""@));
    assert forall|j: int| 0 <= j < n implies !crate::text::at(s, j, "\""@) by {
        if crate::text::at(s, j, "\""@) {
            assert(s.subrange(j, j + 1)[0] == exe[j]);
        }
    }
    assert(s.take(n) =~= exe);
}

/// The line that starts the bot is one line, and nothing of it is trimmed.
proof fn lemma_command_line(exe: Seq<char>, config_base: Seq<char>)
    requires
        !exe.contains('\n'),
        !config_base.contains('\n'),
    ensures
        one_line("ExecStart="@ + exec_start_text(exe, config_base)),
        trimmed("ExecStart="@ + exec_start_text(exe, config_base)) == "ExecStart="@
            + exec_start_text(exe, config_base),
{
    reveal_strlit("\"");
    reveal_strlit("\" --config \"");
    reveal_strlit("/%I.json\"");
    reveal_strlit("ExecStart=");
    let line = "ExecStart="@ + exec_start_text(exe, config_base);
    assert(line.last() == '"');
    assert forall|i: int| 0 <= i < line.len() implies #[trigger] line[i] != '\n' by {
        let n = exe.len() as int;
        if 11 <= i < 11 + n {
            assert(line[i] == exe[i - 11]);
        } else if 11 + n + 12 <= i < 11 + n + 12 + config_base.len() {
            assert(line[i] == config_base[i - 11 - n - 12]);
        }
    }
    assert(line[0] == 'E');
    nothing_to_trim(line);
}

/// The lines of the unit that is written, up to the one that starts the bot.
proof fn lemma_written_lines(
    exe: Seq<char>,
    config_base: Seq<char>,
    config_dir: Seq<char>,
    tools_dir: Option<Seq<char>>,
)
    requires
        !exe.contains('\n'),
        !config_base.contains('\n'),
        one_line(config_dir),
    ensures
        ({
            let command = exec_start_text(exe, config_base);
            let all = lines(text_of_lines(unit_lines(command, config_dir, tools_dir)));
            &&& all.len() >= 10
            &&& all[9] == "ExecStart="@ + command
            &&& forall|i: int| 0 <= i < 9 ==> #[trigger] all[i] == unit_head(config_dir)[i]
        }),
{
    let whole = unit_lines(exec_start_text(exe, config_base), config_dir, tools_dir);
    lemma_command_line(exe, config_base);
    lemma_head_is_lines(config_dir);
    assert(whole[9] == "ExecStart="@ + exec_start_text(exe, config_base));
    assert forall|i: int| 0 <= i < 10 implies one_line(#[trigger] whole[i]) by {
        if i < 9 {
            assert(whole[i] == unit_head(config_dir)[i]);
        }
    }
    leading_lines(whole, 10);
    let all = lines(text_of_lines(whole));
    assert forall|i: int| 0 <= i < 10 implies #[trigger] all[i] == whole[i] by {
        assert(all.take(10)[i] == whole.take(10)[i]);
    }
    assert forall|i: int| 0 <= i < 9 implies #[trigger] all[i] == unit_head(config_dir)[i] by {
        assert(whole[i] == unit_head(config_dir)[i]);
    }
}

/// The binary in the command that starts the bot is the one it was made from.
proof fn lemma_binary_of_command(exe: Seq<char>, config_base: Seq<char>)
    requires
        exe.len() > 0,
        !exe.contains('"'),
    ensures
        binary_in(exec_start_text(exe, config_base)) == Some(exe),
{
    reveal_strlit("\"");
    reveal_strlit("\" --config \"");
    reveal_strlit(" --config \"");
    reveal_strlit("/%I.json\"");
    let command = exec_start_text(exe, config_base);
    assert(command[0] == '"');
    assert(command.last() == '"');
    nothing_to_trim(command);
    let rest = " --config \""@ + config_base + "/%I.json\""@;
    assert(command.skip(1) =~= exe + "\""@ + rest);
    lemma_quoted_first(exe, rest);
}

/// The binary that we write into a unit is the one that is read back from it,
/// whatever spaces its path holds.
pub proof fn the_binary_we_write_is_read_back(
    exe: Seq<char>,
    config_base: Seq<char>,
    config_dir: Seq<char>,
    tools_dir: Option<Seq<char>>,
)
    requires
        exe.len() > 0,
        !exe.contains('"'),
        !exe.contains('\n'),
        !config_base.contains('\n'),
        one_line(config_dir),
    ensures
        binary_of_unit(
            text_of_lines(unit_lines(exec_start_text(exe, config_base), config_dir, tools_dir)),
        ) == Some(exe),
{
    let command = exec_start_text(exe, config_base);
    let line = "ExecStart="@ + command;
    let all = lines(text_of_lines(unit_lines(command, config_dir, tools_dir)));
    lemma_written_lines(exe, config_base, config_dir, tools_dir);
    lemma_command_line(exe, config_base);
    assert forall|k: int| 0 <= k < 9 implies !"ExecStart="@.is_prefix_of(
        #[trigger] all_trimmed(all)[k],
    ) by {
        assert(all[k] == unit_head(config_dir)[k]);
        lemma_head_starts(config_dir, k);
        lemma_not_the_command(all, k);
    }
    assert(all_trimmed(all)[9] == line);
    reveal_strlit("ExecStart=");
    assert(line.subrange(0, 10) =~= "ExecStart="@);
    lemma_first_after_at(all_trimmed(all), "ExecStart="@, 9);
    assert(line.skip(10) =~= command);
    lemma_binary_of_command(exe, config_base);
}

proof fn lemma_head_starts(config_dir: Seq<char>, k: int)
    requires
        0 <= k < 9,
    ensures
        ({
            let s = unit_head(config_dir)[k];
            s.len() > 0 ==> s[0] != 'E' && !crate::text::is_white(s[0])
        }),
{
    reveal_strlit("# ttspotify-unit-version: ");
    reveal_strlit("[Unit]");
    reveal_strlit("Description=TTSpotify Bot (%i)");
    reveal_strlit("After=network-online.target");
    reveal_strlit("Wants=network-online.target");
    reveal_strlit("");
    reveal_strlit("[Service]");
    reveal_strlit("Type=simple");
    reveal_strlit("WorkingDirectory=");
}

// ---- units and instances ----

/// Whether a text names one of our units.
pub open spec fn is_our_unit(unit: Seq<char>) -> bool {
    "ttspotify@"@.is_prefix_of(unit) && ".service"@.is_suffix_of(unit)
}

/// The first column of each of some lines, where it names one of our units.
pub open spec fn units_in(ls: Seq<Seq<char>>) -> Seq<Seq<char>>
    decreases ls.len(),
{
    if ls.len() == 0 {
        seq![]
    } else {
        let before = units_in(ls.drop_last());
        let columns = words(ls.last());
        if columns.len() > 0 && is_our_unit(columns[0]) {
            before.push(columns[0])
        } else {
            before
        }
    }
}

/// Parse what systemctl lists, without a legend, into unit names: the first
/// column of each line, filtered to our template's instances.
pub fn parse_running_units(output: &str) -> (r: Vec<String>)
    ensures
        views(r@) == units_in(lines(output@)),
{
    let ls = split_lines(output);
    let mut out: Vec<String> = Vec::new();
    let mut i: usize = 0;
    while i < ls.len()
        invariant
            i <= ls.len(),
            views(out@) == units_in(views(ls@).take(i as int)),
        decreases ls.len() - i,
    {
        assert(views(ls@).take(i + 1).drop_last() =~= views(ls@).take(i as int));
        assert(views(ls@)[i as int] == ls@[i as int]@);
        let columns = split_words(ls[i].as_str());
        if columns.len() > 0 {
            assert(views(columns@)[0] == columns@[0]@);
            let unit = columns[0].clone();
            if starts_with(unit.as_str(), "ttspotify@") && ends_with(unit.as_str(), ".service") {
                proof {
                    lemma_views_push(out@, unit);
                }
                out.push(unit);
            }
        }
        i += 1;
    }
    assert(views(ls@).take(i as int) =~= views(ls@));
    out
}

/// The unit for a config.
pub open spec fn unit_of(name: Seq<char>) -> Seq<char> {
    "ttspotify@"@ + instance_of(name) + ".service"@
}

pub fn unit_for(name: &str) -> (r: String)
    ensures
        r@ == unit_of(name@),
{
    let mut out = String::from_str("ttspotify@");
    out.append(systemd_escape_instance(name).as_str());
    out.append(".service");
    out
}

/// A list of units with one more, unless it is there already or no instance.
pub open spec fn with_unit(list: Seq<Seq<char>>, unit: Seq<char>) -> Seq<Seq<char>> {
    if unit == SERVICE_NAME@ || list.contains(unit) {
        list
    } else {
        list.push(unit)
    }
}

/// A list of units with some more, one after the other.
pub open spec fn with_units(list: Seq<Seq<char>>, units: Seq<Seq<char>>) -> Seq<Seq<char>>
    decreases units.len(),
{
    if units.len() == 0 {
        list
    } else {
        with_unit(with_units(list, units.drop_last()), units.last())
    }
}

/// The units for some configs.
pub open spec fn units_of(names: Seq<Seq<char>>) -> Seq<Seq<char>> {
    names.map_values(|name: Seq<char>| unit_of(name))
}

/// Every instance worth disabling, in the order of its first source.
pub open spec fn instances(
    unit_files: Seq<char>,
    running: Seq<Seq<char>>,
    names: Seq<Seq<char>>,
) -> Seq<Seq<char>> {
    with_units(with_units(with_units(seq![], units_in(lines(unit_files))), running), units_of(names))
}

fn add_units(list: Vec<String>, units: &Vec<String>) -> (r: Vec<String>)
    ensures
        views(r@) == with_units(views(list@), views(units@)),
{
    let ghost start = views(list@);
    let mut out = list;
    let mut i: usize = 0;
    while i < units.len()
        invariant
            i <= units.len(),
            views(out@) == with_units(start, views(units@).take(i as int)),
        decreases units.len() - i,
    {
        assert(views(units@).take(i + 1).drop_last() =~= views(units@).take(i as int));
        assert(views(units@)[i as int] == units@[i as int]@);
        let unit = units[i].clone();
        if !same(unit.as_str(), SERVICE_NAME) && !is_one_of(&out, unit.as_str()) {
            proof {
                lemma_views_push(out@, unit);
            }
            out.push(unit);
        }
        i += 1;
    }
    assert(views(units@).take(i as int) =~= views(units@));
    out
}

/// Every `ttspotify@` instance worth disabling, from three sources: unit files
/// systemd lists (an enabled instance leaves a symlink that outlives the
/// template file), units currently running, and one per config on disk.
///
/// The bare template is not an instance and is dropped: `disable` on it would
/// be a no-op at best.
pub fn known_instances(
    unit_files: &str,
    running: &Vec<String>,
    config_names: &Vec<String>,
) -> (r: Vec<String>)
    ensures
        views(r@) == instances(unit_files@, views(running@), views(config_names@)),
{
    let mut units: Vec<String> = Vec::new();
    let mut i: usize = 0;
    while i < config_names.len()
        invariant
            i <= config_names.len(),
            views(units@) =~= units_of(views(config_names@)).take(i as int),
        decreases config_names.len() - i,
    {
        let unit = unit_for(config_names[i].as_str());
        proof {
            lemma_views_push(units@, unit);
        }
        units.push(unit);
        i += 1;
    }
    assert(units_of(views(config_names@)).take(i as int) =~= units_of(views(config_names@)));
    let none: Vec<String> = Vec::new();
    assert(views(none@) =~= seq![]);
    let listed = add_units(none, &parse_running_units(unit_files));
    add_units(add_units(listed, running), &units)
}

/// The `ttspotify@` instances systemd has enabled, from what it lists of the
/// unit files.
pub fn enabled_instance_units(unit_files: &str) -> (r: Vec<String>)
    ensures
        views(r@) == with_units(seq![], units_in(lines(unit_files@))),
{
    let none: Vec<String> = Vec::new();
    assert(views(none@) =~= seq![]);
    add_units(none, &parse_running_units(unit_files))
}

proof fn lemma_with_units(list: Seq<Seq<char>>, units: Seq<Seq<char>>)
    requires
        list.no_duplicates(),
        !list.contains(SERVICE_NAME@),
    ensures
        with_units(list, units).no_duplicates(),
        !with_units(list, units).contains(SERVICE_NAME@),
        forall|u: Seq<char>|
            u != SERVICE_NAME@ ==> (#[trigger] with_units(list, units).contains(u) <==> list.contains(u)
                || units.contains(u)),
    decreases units.len(),
{
    if units.len() > 0 {
        let before = with_units(list, units.drop_last());
        let unit = units.last();
        lemma_with_units(list, units.drop_last());
        let after = with_units(list, units);
        assert forall|u: Seq<char>| u != SERVICE_NAME@ implies (#[trigger] after.contains(u)
            <==> list.contains(u) || units.contains(u)) by {
            lemma_contains_push(units.drop_last(), unit, u);
            assert(units.drop_last().push(unit) =~= units);
            lemma_contains_push(before, unit, u);
            assert(before.contains(u) <==> list.contains(u) || units.drop_last().contains(u));
        }
        lemma_contains_push(before, unit, SERVICE_NAME@);
    }
}

proof fn lemma_contains_push(list: Seq<Seq<char>>, x: Seq<char>, u: Seq<char>)
    ensures
        list.push(x).contains(u) <==> list.contains(u) || u == x,
{
    if list.contains(u) {
        let k = choose|k: int| 0 <= k < list.len() && list[k] == u;
        assert(list.push(x)[k] == u);
    }
    if u == x {
        assert(list.push(x)[list.len() as int] == u);
    }
    if list.push(x).contains(u) {
        let k = choose|k: int| 0 <= k < list.push(x).len() && list.push(x)[k] == u;
        if k < list.len() {
            assert(list[k] == u);
        }
    }
}

/// An instance is listed once, however many of the sources name it, and every
/// instance that one of them names is listed; the template never is.
pub proof fn every_instance_is_listed_once(
    unit_files: Seq<char>,
    running: Seq<Seq<char>>,
    names: Seq<Seq<char>>,
)
    ensures
        instances(unit_files, running, names).no_duplicates(),
        !instances(unit_files, running, names).contains(SERVICE_NAME@),
        forall|u: Seq<char>|
            u != SERVICE_NAME@ ==> (#[trigger] instances(unit_files, running, names).contains(u)
                <==> units_in(lines(unit_files)).contains(u) || running.contains(u) || units_of(
                names,
            ).contains(u)),
{
    let one = with_units(seq![], units_in(lines(unit_files)));
    let two = with_units(one, running);
    lemma_with_units(seq![], units_in(lines(unit_files)));
    lemma_with_units(one, running);
    lemma_with_units(two, units_of(names));
    assert forall|u: Seq<char>| u != SERVICE_NAME@ implies (#[trigger] instances(
        unit_files,
        running,
        names,
    ).contains(u) <==> units_in(lines(unit_files)).contains(u) || running.contains(u) || units_of(
        names,
    ).contains(u)) by {
        assert(one.contains(u) <==> units_in(lines(unit_files)).contains(u));
        assert(two.contains(u) <==> one.contains(u) || running.contains(u));
    }
}

// ---- what was done, in words ----

/// What happened to an instance that was to be stopped and disabled.
///
/// `disable --now` succeeds on an instance that was neither enabled nor
/// running, so the report follows the state seen beforehand rather than the
/// exit status. With the template file already deleted it clears the dangling
/// symlink but still fails, so the symlink says whether anything was cleaned
/// up.
pub open spec fn removal_text(
    unit: Seq<char>,
    disabled: bool,
    was_enabled: bool,
    was_running: bool,
    cleaned: bool,
) -> Option<Seq<char>> {
    if disabled && was_enabled && was_running {
        Some("  "@ + unit + " stopped and disabled."@)
    } else if disabled && was_enabled {
        Some("  "@ + unit + " disabled."@)
    } else if disabled && was_running {
        Some("  "@ + unit + " stopped."@)
    } else if cleaned {
        Some("  "@ + unit + " disabled (left enabled by an earlier uninstall)."@)
    } else {
        None
    }
}

fn around(before: &str, text: &str, after: &str) -> (r: String)
    ensures
        r@ == before@ + text@ + after@,
{
    let mut out = before.to_owned();
    out.append(text);
    out.append(after);
    out
}

/// Whether an enable symlink was cleaned up: it was there and systemd took it
/// away, or it was removed by hand.
pub fn symlink_cleaned(was_enabled: bool, still_there: bool, removed_by_hand: bool) -> (r: bool)
    ensures
        r == ((was_enabled && !still_there) || (still_there && removed_by_hand)),
{
    (was_enabled && !still_there) || (still_there && removed_by_hand)
}

/// What to say of an instance that was to be stopped and disabled.
pub fn removal_report(
    unit: &str,
    disabled: bool,
    was_enabled: bool,
    was_running: bool,
    cleaned: bool,
) -> (r: Option<String>)
    ensures
        match r {
            Some(text) => removal_text(unit@, disabled, was_enabled, was_running, cleaned) == Some(
                text@,
            ),
            None => removal_text(unit@, disabled, was_enabled, was_running, cleaned) is None,
        },
{
    if disabled && was_enabled && was_running {
        Some(around("  ", unit, " stopped and disabled."))
    } else if disabled && was_enabled {
        Some(around("  ", unit, " disabled."))
    } else if disabled && was_running {
        Some(around("  ", unit, " stopped."))
    } else if cleaned {
        Some(around("  ", unit, " disabled (left enabled by an earlier uninstall)."))
    } else {
        None
    }
}

/// What to say of a unit that was to be restarted.
pub fn restart_report(unit: &str, ok: bool) -> (r: String)
    ensures
        r@ == (if ok {
            "  "@ + unit@ + " restarted."@
        } else {
            "  "@ + unit@ + " failed to restart - check: systemctl --user status "@ + unit@
        }),
{
    if ok {
        around("  ", unit, " restarted.")
    } else {
        let mut out = around("  ", unit, " failed to restart - check: systemctl --user status ");
        out.append(unit);
        out
    }
}

/// What to do about the running bots after an update.
#[derive(Debug)]
pub enum RestartOffer {
    /// Nothing runs as a service: say this.
    Say(String),
    /// Ask this.
    Ask(String),
}

/// What to do about the running bots after an update.
pub fn restart_offer(units: &Vec<String>) -> (r: RestartOffer)
    ensures
        match r {
            RestartOffer::Say(text) => units@.len() == 0 && text@
                == "If running as a service, restart it: systemctl --user restart ttspotify@<name>"@,
            RestartOffer::Ask(question) => units@.len() > 0 && question@ == "Restart "@ + digits(
                units@.len(),
            ) + " running bot(s) now?"@,
        },
{
    if units.len() == 0 {
        RestartOffer::Say(
            String::from_str(
                "If running as a service, restart it: systemctl --user restart ttspotify@<name>",
            ),
        )
    } else {
        RestartOffer::Ask(
            around("Restart ", decimal(units.len() as u64).as_str(), " running bot(s) now?"),
        )
    }
}

/// Whether to ask about lingering: only when it is known who would linger and
/// it isn't already enabled.
pub fn asks_about_linger(user: &str, enabled: bool) -> (r: bool)
    ensures
        r == (user@.len() > 0 && !enabled),
{
    !user.is_empty() && !enabled
}

/// What to say after asking about lingering: `answer` is what was typed,
/// `enabled` whether it could be turned on.
pub fn linger_report(user: &str, answer: &str, enabled: bool) -> (r: String)
    ensures
        r@ == (if !yes(answer@) {
            "Skipped. Enable later with: loginctl enable-linger "@ + user@
        } else if enabled {
            "Linger enabled."@
        } else {
            "Could not enable linger. Run manually: loginctl enable-linger "@ + user@
        }),
{
    if !is_yes(answer) {
        labelled("Skipped. Enable later with: loginctl enable-linger ", user)
    } else if enabled {
        String::from_str("Linger enabled.")
    } else {
        labelled("Could not enable linger. Run manually: loginctl enable-linger ", user)
    }
}

/// What to say once the unit file is installed: our own commands, not the
/// systemd ones they replace.
pub fn install_report(config_base: &str, program: &str) -> (r: Vec<String>)
    ensures
        views(r@) == seq![
            ""@,
            "TTSpotify service installed."@,
            "Config files go in: "@ + config_base@,
            ""@,
            "Quick start:"@,
            "  "@ + program@ + " add myserver        create a bot"@,
            "  "@ + program@ + " start myserver      run it in the background"@,
            "  "@ + program@ + " status              see what is running"@,
            "  "@ + program@ + " watch myserver      follow its log"@,
        ],
{
    let out = vec![
        String::from_str(""),
        String::from_str("TTSpotify service installed."),
        labelled("Config files go in: ", config_base),
        String::from_str(""),
        String::from_str("Quick start:"),
        around("  ", program, " add myserver        create a bot"),
        around("  ", program, " start myserver      run it in the background"),
        around("  ", program, " status              see what is running"),
        around("  ", program, " watch myserver      follow its log"),
    ];
    assert(views(out@) =~= seq![
        ""@,
        "TTSpotify service installed."@,
        "Config files go in: "@ + config_base@,
        ""@,
        "Quick start:"@,
        "  "@ + program@ + " add myserver        create a bot"@,
        "  "@ + program@ + " start myserver      run it in the background"@,
        "  "@ + program@ + " status              see what is running"@,
        "  "@ + program@ + " watch myserver      follow its log"@,
    ]);
    out
}

/// What to say once the service is gone. `noted` is false where the binary is
/// going to be removed too.
pub open spec fn uninstall_lines(unit_path: Seq<char>, found: bool, noted: bool) -> Seq<Seq<char>> {
    let first = if found {
        "TTSpotify service removed."@
    } else {
        "No service file found at "@ + unit_path
    };
    if noted {
        seq![first, "Configs, logs and the binary itself are untouched."@]
    } else {
        seq![first]
    }
}

pub fn uninstall_report(unit_path: &str, found: bool, noted: bool) -> (r: Vec<String>)
    ensures
        views(r@) == uninstall_lines(unit_path@, found, noted),
{
    let mut out: Vec<String> = Vec::new();
    if found {
        out.push(String::from_str("TTSpotify service removed."));
    } else {
        out.push(labelled("No service file found at ", unit_path));
    }
    if noted {
        out.push(String::from_str("Configs, logs and the binary itself are untouched."));
    }
    assert(views(out@) =~= uninstall_lines(unit_path@, found, noted));
    out
}

/// Only units of ours that the listing names in the first column of a line are
/// found, and all of them.
pub proof fn our_units_are_found_in_the_first_column(ls: Seq<Seq<char>>, unit: Seq<char>)
    ensures
        units_in(ls).contains(unit) <==> is_our_unit(unit) && exists|i: int|
            0 <= i < ls.len() && words(#[trigger] ls[i]).len() > 0 && words(ls[i])[0] == unit,
    decreases ls.len(),
{
    if ls.len() > 0 {
        let rest = ls.drop_last();
        let columns = words(ls.last());
        our_units_are_found_in_the_first_column(rest, unit);
        assert forall|i: int| 0 <= i < rest.len() implies #[trigger] rest[i] == ls[i] by {}
        if columns.len() > 0 && is_our_unit(columns[0]) {
            lemma_contains_push(units_in(rest), columns[0], unit);
        }
        if units_in(ls).contains(unit) {
            if units_in(rest).contains(unit) {
                let i = choose|i: int|
                    0 <= i < rest.len() && words(#[trigger] rest[i]).len() > 0 && words(rest[i])[0]
                        == unit;
                assert(ls[i] == rest[i]);
            } else {
                assert(words(ls[ls.len() - 1])[0] == unit);
            }
        }
        if is_our_unit(unit) && exists|i: int|
            0 <= i < ls.len() && words(#[trigger] ls[i]).len() > 0 && words(ls[i])[0] == unit {
            let i = choose|i: int|
                0 <= i < ls.len() && words(#[trigger] ls[i]).len() > 0 && words(ls[i])[0] == unit;
            if i < rest.len() {
                assert(rest[i] == ls[i]);
            }
        }
    }
}

/// The unit of a bot is one of ours, and no other bot has it.
pub proof fn every_bot_has_a_unit_of_its_own(one: Seq<char>, other: Seq<char>)
    ensures
        is_our_unit(unit_of(one)),
        unit_of(one) == unit_of(other) ==> one == other,
{
    let front = "ttspotify@"@;
    let back = ".service"@;
    let a = unit_of(one);
    let b = unit_of(other);
    let x = instance_of(one);
    let y = instance_of(other);
    assert(front =~= a.take(front.len() as int));
    assert(back =~= a.subrange(a.len() - back.len(), a.len() as int));
    if a == b {
        assert(x.len() == y.len());
        assert(a.subrange(front.len() as int, front.len() as int + x.len()) =~= x);
        assert(b.subrange(front.len() as int, front.len() as int + y.len()) =~= y);
        different_bots_have_different_instances(one, other);
    }
}

/// The variable names who is logged in, where it is set; only where it is not
/// does it matter what was printed.
pub proof fn the_variable_names_the_user(name: Seq<char>, printed: Option<Seq<char>>)
    requires
        name.len() > 0,
    ensures
        login_name(Some(name), printed) == name,
        login_name(Some(Seq::empty()), printed) == login_name(None, printed),
        !crate::text::is_white(name[0]) && !crate::text::is_white(name.last()) ==> login_name(
            None,
            Some(name.push('\n')),
        ) == name,
        login_name(None, None).len() == 0,
{
    reveal_strlit("");
    if !crate::text::is_white(name[0]) && !crate::text::is_white(name.last()) {
        crate::text::trimming_takes_white_space_off(Seq::empty(), name, seq!['\n']);
        assert(Seq::<char>::empty() + name + seq!['\n'] =~= name.push('\n'));
    }
}

/// The bot may write to its own folder and to that of its tools, wherever they
/// are.
pub proof fn the_bot_may_write_to_its_folders(
    exec_start: Seq<char>,
    config_dir: Seq<char>,
    tools_dir: Seq<char>,
)
    ensures
        unit_lines(exec_start, config_dir, Some(tools_dir)).contains(
            "ReadWritePaths=-"@ + config_dir,
        ),
        unit_lines(exec_start, config_dir, Some(tools_dir)).contains(
            "ReadWritePaths=-"@ + tools_dir,
        ),
        unit_lines(exec_start, config_dir, None).contains("ReadWritePaths=-"@ + config_dir),
        unit_lines(exec_start, config_dir, None).contains("ExecStart="@ + exec_start),
        unit_lines(exec_start, config_dir, None).contains("WorkingDirectory="@ + config_dir),
        unit_lines(exec_start, config_dir, Some(tools_dir)).len() == unit_lines(
            exec_start,
            config_dir,
            None,
        ).len() + 1,
{
    let with = unit_lines(exec_start, config_dir, Some(tools_dir));
    let without = unit_lines(exec_start, config_dir, None);
    assert(with[24] == "ReadWritePaths=-"@ + config_dir);
    assert(with[25] == "ReadWritePaths=-"@ + tools_dir);
    assert(without[24] == "ReadWritePaths=-"@ + config_dir);
    assert(without[9] == "ExecStart="@ + exec_start);
    assert(without[8] == "WorkingDirectory="@ + config_dir);
}

/// A report says what was stopped or disabled: nothing where nothing was, and
/// something else for each thing that can have been done.
pub proof fn the_report_tells_what_was_undone(
    unit: Seq<char>,
    one: (bool, bool),
    other: (bool, bool),
    cleaned: bool,
)
    ensures
        removal_text(unit, true, one.0, one.1, false) is Some <==> one.0 || one.1,
        removal_text(unit, false, one.0, one.1, cleaned) is Some <==> cleaned,
        removal_text(unit, true, one.0, one.1, false) == removal_text(
            unit,
            true,
            other.0,
            other.1,
            false,
        ) ==> one == other,
        one.0 || one.1 ==> removal_text(unit, true, one.0, one.1, false) != removal_text(
            unit,
            false,
            other.0,
            other.1,
            cleaned,
        ),
{
    reveal_strlit("  ");
    reveal_strlit(" stopped and disabled.");
    reveal_strlit(" disabled.");
    reveal_strlit(" stopped.");
    reveal_strlit(" disabled (left enabled by an earlier uninstall).");
    let n = unit.len();
    let a = "  "@ + unit + " stopped and disabled."@;
    let b = "  "@ + unit + " disabled."@;
    let c = "  "@ + unit + " stopped."@;
    let d = "  "@ + unit + " disabled (left enabled by an earlier uninstall)."@;
    assert(a.len() == n + 24);
    assert(b.len() == n + 12);
    assert(c.len() == n + 11);
    assert(d.len() > n + 40);
}

/// A byte that an instance can have stands for itself, a slash becomes a dash,
/// and any other byte is written with its number.
pub proof fn plain_bytes_stand_for_themselves(b: u8, in_front: bool)
    ensures
        b < 128 && is_ascii_alnum(b as char) ==> escaped_byte(b, in_front) == seq![b as char],
        b == '_' as u8 || b == ':' as u8 ==> escaped_byte(b, in_front) == seq![b as char],
        b == '.' as u8 ==> (escaped_byte(b, in_front).len() == 1 <==> !in_front),
        b == '/' as u8 ==> escaped_byte(b, in_front) == seq!['-'],
        b == '-' as u8 || b == ' ' as u8 || b >= 128 ==> escaped_byte(b, in_front) == seq![
            '\\',
            'x',
        ] + hex_digits(b as nat, 2),
{
    reveal_with_fuel(hex_digits, 3);
}

} // verus!
