//! One bot per config, per machine.
//!
//! A bot holds a lock on a file in the state directory for as long as it runs,
//! so a second copy of the same bot is refused instead of logging in under the
//! same account. Taking the lock is up to the operating system; which file it
//! is, and what a refusal means, is decided here.
use vstd::prelude::*;
use vstd::string::*;

use crate::paths::{file_stem, join_path, joined_path, stem_of_path, PathStyle};
use crate::text::{hex, hex_digits};

verus! {

/// Why a lock could not be taken.
#[derive(Debug)]
pub enum LockError {
    /// Another process is running this bot.
    AlreadyRunning,
    /// The lock itself could not be created: a read-only data directory, say.
    /// The bot should carry on: refusing to start because a lock file cannot be
    /// written would be a worse failure than the one being prevented.
    Unavailable(String),
}

impl LockError {
    /// Whether the bot has to stop because of it.
    pub fn stops_the_bot(&self) -> (r: bool)
        ensures
            r == (self is AlreadyRunning),
    {
        match self {
            LockError::AlreadyRunning => true,
            LockError::Unavailable(_) => false,
        }
    }
}

/// What the operating system made of an attempt to lock a file.
#[derive(Debug)]
pub enum LockAttempt {
    Taken,
    /// Somebody else holds it.
    WouldBlock,
    Failed(String),
}

/// What an attempt to lock a file means for the bot.
pub fn lock_result(attempt: LockAttempt) -> (r: Result<(), LockError>)
    ensures
        attempt is Taken <==> r is Ok,
        attempt is WouldBlock <==> r matches Err(LockError::AlreadyRunning),
        match attempt {
            LockAttempt::Failed(reason) => r matches Err(LockError::Unavailable(why))
                && why@ == reason@,
            _ => true,
        },
{
    match attempt {
        LockAttempt::Taken => Ok(()),
        LockAttempt::WouldBlock => Err(LockError::AlreadyRunning),
        LockAttempt::Failed(reason) => Err(LockError::Unavailable(reason)),
    }
}

/// The FNV-1a offset basis.
pub const OFFSET_BASIS: u64 = 0xcbf2_9ce4_8422_2325;

/// The FNV-1a prime.
pub const PRIME: u64 = 0x0000_0100_0000_01b3;

/// The FNV-1a digest of some bytes: from left to right, each byte goes into
/// the lowest bits, and a multiplication spreads it.
pub open spec fn fnv(bytes: Seq<u8>) -> u64
    decreases bytes.len(),
{
    if bytes.len() == 0 {
        OFFSET_BASIS
    } else {
        (fnv(bytes.drop_last()) ^ (bytes.last() as u64)).wrapping_mul(PRIME)
    }
}

/// The digest of a path: of its text as UTF-8.
pub open spec fn digest_of(path: Seq<char>) -> u64 {
    fnv(vstd::utf8::encode_utf8(path))
}

/// A digest of the path that two builds will always agree on.
///
/// Two processes have to arrive at the same file name, so it may not change
/// from one build to the next.
pub fn path_digest(path: &str) -> (r: u64)
    ensures
        r == digest_of(path@),
{
    let bytes = path.as_bytes_vec();
    let mut hash: u64 = OFFSET_BASIS;
    let mut i: usize = 0;
    while i < bytes.len()
        invariant
            i <= bytes.len(),
            bytes@ == vstd::utf8::encode_utf8(path@),
            hash == fnv(bytes@.take(i as int)),
        decreases bytes.len() - i,
    {
        assert(bytes@.take(i + 1).drop_last() =~= bytes@.take(i as int));
        hash = (hash ^ (bytes[i] as u64)).wrapping_mul(PRIME);
        i += 1;
    }
    assert(bytes@.take(i as int) =~= bytes@);
    hash
}

/// The name of the lock file for a config, given the path it was named by and
/// the path it is found at.
pub open spec fn lock_name(style: PathStyle, config: Seq<char>, full: Seq<char>) -> Seq<char> {
    (match stem_of_path(style, config) {
        Some(stem) => stem,
        None => "config"@,
    }) + "-"@ + hex_digits(digest_of(full) as nat, 16) + ".lock"@
}

/// Where a config's lock lives: in the state directory, named after the config
/// and the full path it came from.
///
/// The name alone is not enough. Two files can both be called `home.json` in
/// different folders, and those are different bots, quite possibly on
/// different accounts. Keying on the whole path means only the same file locks
/// out the same file, while the readable stem keeps the directory listing
/// meaningful. `resolved` is the canonical path, where it resolves, so that a
/// relative and an absolute path to the same file share a lock; the path as
/// given counts when it does not.
pub fn lock_path(
    style: PathStyle,
    state_dir: &str,
    config_path: &str,
    resolved: Option<&str>,
) -> (r: String)
    ensures
        r@ == joined_path(
            style,
            state_dir@,
            lock_name(
                style,
                config_path@,
                match resolved {
                    Some(full) => full@,
                    None => config_path@,
                },
            ),
        ),
{
    let mut name = match file_stem(style, config_path) {
        Some(stem) => stem,
        None => String::from_str("config"),
    };
    let full = match resolved {
        Some(full) => full,
        None => config_path,
    };
    name.append("-");
    name.append(hex(path_digest(full), 16).as_str());
    name.append(".lock");
    join_path(style, state_dir, name.as_str())
}

/// Two ways to name the same file share a lock, wherever the bots are started
/// from: the lock depends on the file's own name and on where it resolves to.
pub proof fn the_same_file_has_one_lock(
    style: PathStyle,
    one: Seq<char>,
    other: Seq<char>,
    full: Seq<char>,
)
    requires
        stem_of_path(style, one) == stem_of_path(style, other),
    ensures
        lock_name(style, one, full) == lock_name(style, other, full),
{
}

/// Files whose digests differ have different locks, even where they are called
/// the same.
pub proof fn different_digests_have_different_locks(
    style: PathStyle,
    config: Seq<char>,
    one: Seq<char>,
    other: Seq<char>,
)
    requires
        digest_of(one) != digest_of(other),
    ensures
        lock_name(style, config, one) != lock_name(style, config, other),
{
    let a = hex_digits(digest_of(one) as nat, 16);
    let b = hex_digits(digest_of(other) as nat, 16);
    assert(vstd::arithmetic::power::pow(16, 16) == 0x1_0000_0000_0000_0000) by {
        lemma_sixteen_digits();
    }
    crate::text::hex_digits_tell_numbers_apart(digest_of(one) as nat, digest_of(other) as nat, 16);
    let front = (match stem_of_path(style, config) {
        Some(stem) => stem,
        None => "config"@,
    }) + "-"@;
    let n = front.len() as int;
    assert(lock_name(style, config, one).subrange(n, n + 16) =~= a);
    assert(lock_name(style, config, other).subrange(n, n + 16) =~= b);
}

proof fn lemma_sixteen_digits()
    ensures
        vstd::arithmetic::power::pow(16, 16) == 0x1_0000_0000_0000_0000,
{
    vstd::arithmetic::power::lemma_pow1(16);
    vstd::arithmetic::power::lemma_pow_adds(16, 1, 1);
    assert(vstd::arithmetic::power::pow(16, 2) == 16 * 16);
    vstd::arithmetic::power::lemma_pow_adds(16, 2, 2);
    assert(vstd::arithmetic::power::pow(16, 4) == 256 * 256);
    vstd::arithmetic::power::lemma_pow_adds(16, 4, 4);
    assert(vstd::arithmetic::power::pow(16, 8) == 0x1_0000 * 0x1_0000);
    vstd::arithmetic::power::lemma_pow_adds(16, 8, 8);
    assert(vstd::arithmetic::power::pow(16, 16) == 0x1_0000_0000 * 0x1_0000_0000);
}

} // verus!
