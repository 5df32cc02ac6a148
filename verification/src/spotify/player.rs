//! The player settings that a configuration names.
use vstd::prelude::*;

use crate::text::{lowercase, same, to_lower, to_upper, uppercase};

verus! {

/// Kilobits per second.
#[derive(Debug, Clone, Copy, PartialEq, Eq, Structural)]
pub enum Bitrate {
    Bitrate96,
    Bitrate160,
    Bitrate320,
}

#[derive(Debug, Clone, Copy, PartialEq, Eq, Structural)]
pub enum NormalisationType {
    Album,
    Track,
    Auto,
}

#[derive(Debug, Clone, Copy, PartialEq, Eq, Structural)]
pub enum NormalisationMethod {
    Basic,
    Dynamic,
}

/// The bitrate that a word in upper case stands for: the highest for any word
/// that is not known.
pub open spec fn bitrate_of(word: Seq<char>) -> Bitrate {
    if word == "VERY_HIGH"@ || word == "320"@ {
        Bitrate::Bitrate320
    } else if word == "HIGH"@ || word == "160"@ {
        Bitrate::Bitrate160
    } else if word == "NORMAL"@ || word == "LOW"@ || word == "96"@ {
        Bitrate::Bitrate96
    } else {
        Bitrate::Bitrate320
    }
}

pub fn bitrate_of_word(word: &str) -> (r: Bitrate)
    ensures
        r == bitrate_of(word@),
{
    if same(word, "VERY_HIGH") || same(word, "320") {
        Bitrate::Bitrate320
    } else if same(word, "HIGH") || same(word, "160") {
        Bitrate::Bitrate160
    } else if same(word, "NORMAL") || same(word, "LOW") || same(word, "96") {
        Bitrate::Bitrate96
    } else {
        Bitrate::Bitrate320
    }
}

pub fn parse_bitrate(quality: &str) -> (r: Bitrate)
    ensures
        r == bitrate_of(uppercase(quality@)),
{
    bitrate_of_word(to_upper(quality).as_str())
}

pub open spec fn norm_type_of(word: Seq<char>) -> NormalisationType {
    if word == "album"@ {
        NormalisationType::Album
    } else if word == "track"@ {
        NormalisationType::Track
    } else {
        NormalisationType::Auto
    }
}

pub fn norm_type_of_word(word: &str) -> (r: NormalisationType)
    ensures
        r == norm_type_of(word@),
{
    if same(word, "album") {
        NormalisationType::Album
    } else if same(word, "track") {
        NormalisationType::Track
    } else {
        NormalisationType::Auto
    }
}

pub fn parse_norm_type(t: &str) -> (r: NormalisationType)
    ensures
        r == norm_type_of(lowercase(t@)),
{
    norm_type_of_word(to_lower(t).as_str())
}

pub open spec fn norm_method_of(word: Seq<char>) -> NormalisationMethod {
    if word == "basic"@ {
        NormalisationMethod::Basic
    } else {
        NormalisationMethod::Dynamic
    }
}

pub fn parse_norm_method(m: &str) -> (r: NormalisationMethod)
    ensures
        r == norm_method_of(lowercase(m@)),
{
    if same(to_lower(m).as_str(), "basic") {
        NormalisationMethod::Basic
    } else {
        NormalisationMethod::Dynamic
    }
}

/// The kilobits per second of a bitrate.
pub open spec fn kilobits(bitrate: Bitrate) -> nat {
    match bitrate {
        Bitrate::Bitrate96 => 96,
        Bitrate::Bitrate160 => 160,
        Bitrate::Bitrate320 => 320,
    }
}

/// A bitrate that is given as its number is that bitrate.
pub proof fn a_bitrate_is_read_from_its_number(bitrate: Bitrate)
    ensures
        bitrate_of(crate::text::digits(kilobits(bitrate))) == bitrate,
{
    reveal_strlit("320");
    reveal_strlit("160");
    reveal_strlit("96");
    reveal_strlit("VERY_HIGH");
    reveal_strlit("HIGH");
    reveal_strlit("NORMAL");
    reveal_strlit("LOW");
    reveal_with_fuel(crate::text::digits, 4);
    assert(crate::text::digits(320) =~= "320"@);
    assert(crate::text::digits(160) =~= "160"@);
    assert(crate::text::digits(96) =~= "96"@);
    assert("160"@[0] == '1' && "320"@[0] == '3');
    assert("96"@.len() == 2);
    assert("VERY_HIGH"@.len() == 9 && "HIGH"@.len() == 4 && "LOW"@[0] == 'L');
}

/// A higher word never stands for a lower bitrate.
pub proof fn bitrates_are_named_in_order()
    ensures
        kilobits(bitrate_of("LOW"@)) <= kilobits(bitrate_of("NORMAL"@)),
        kilobits(bitrate_of("NORMAL"@)) < kilobits(bitrate_of("HIGH"@)),
        kilobits(bitrate_of("HIGH"@)) < kilobits(bitrate_of("VERY_HIGH"@)),
{
    reveal_strlit("320");
    reveal_strlit("160");
    reveal_strlit("96");
    reveal_strlit("VERY_HIGH");
    reveal_strlit("HIGH");
    reveal_strlit("NORMAL");
    reveal_strlit("LOW");
    assert("VERY_HIGH"@.len() == 9 && "HIGH"@.len() == 4 && "LOW"@.len() == 3);
    assert("NORMAL"@.len() == 6 && "160"@[0] == '1' && "320"@[0] == '3' && "LOW"@[0] == 'L');
    assert("160"@.len() == 3 && "320"@.len() == 3);
}

} // verus!
