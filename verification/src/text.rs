//! Text on sequences of characters.
//!
//! Every string of the library is seen as its sequence of characters; the
//! functions here take strings apart, put them together and write and read
//! decimal numbers.
use vstd::prelude::*;
use vstd::string::*;

verus! {

// ---- building ----

/// `String::push` appends one character to the end of the string.
pub assume_specification[ String::push ](s: &mut String, c: char)
    ensures
        final(s)@ == old(s)@.push(c),
;

/// The characters of a string, in order.
pub fn chars_of(s: &str) -> (r: Vec<char>)
    ensures
        r@ == s@,
{
    let mut out: Vec<char> = Vec::new();
    for c in it: s.chars()
        invariant
            out@ =~= it.seq().take(it.index() as int),
            it.seq() == s@,
    {
        out.push(c);
    }
    out
}

/// The string whose characters are `v`.
pub fn string_of(v: &Vec<char>) -> (r: String)
    ensures
        r@ == v@,
{
    let mut out = String::new();
    let mut i: usize = 0;
    while i < v.len()
        invariant
            i <= v.len(),
            out@ =~= v@.take(i as int),
        decreases v.len() - i,
    {
        out.push(v[i]);
        i += 1;
    }
    out
}

// ---- decimal numbers ----

/// The character for a single decimal digit.
pub open spec fn digit_char(d: nat) -> char {
    (48 + d) as char
}

/// A number written in decimal, without leading zeros.
pub open spec fn digits(n: nat) -> Seq<char>
    decreases n,
{
    if n < 10 {
        seq![digit_char(n)]
    } else {
        digits(n / 10).push(digit_char(n % 10))
    }
}

fn digit(d: u64) -> (c: char)
    requires
        d < 10,
    ensures
        c == digit_char(d as nat),
{
    (48 + d as u8) as char
}

/// Write `n` in decimal.
pub fn decimal(n: u64) -> (r: String)
    ensures
        r@ == digits(n as nat),
    decreases n,
{
    if n < 10 {
        let mut out = String::new();
        out.push(digit(n));
        out
    } else {
        let mut out = decimal(n / 10);
        out.push(digit(n % 10));
        out
    }
}


/// Write a number of up to 128 bits in decimal.
pub fn decimal_wide(n: u128) -> (r: String)
    ensures
        r@ == digits(n as nat),
    decreases n,
{
    if n < 10 {
        decimal(n as u64)
    } else {
        let mut out = decimal_wide(n / 10);
        out.push(digit((n % 10) as u64));
        out
    }
}

/// Write `n` in decimal, in two places at least: `7` becomes `07`.
pub open spec fn two_digits(n: nat) -> Seq<char> {
    if n < 10 {
        seq!['0'] + digits(n)
    } else {
        digits(n)
    }
}

pub fn decimal2(n: u64) -> (r: String)
    ensures
        r@ == two_digits(n as nat),
{
    if n < 10 {
        let mut out = String::new();
        out.push('0');
        out.append(decimal(n).as_str());
        out
    } else {
        decimal(n)
    }
}

/// An integer written in decimal, with a minus sign where it is negative.
pub open spec fn signed_digits(n: int) -> Seq<char> {
    if n < 0 {
        seq!['-'] + digits((-n) as nat)
    } else {
        digits(n as nat)
    }
}

pub fn signed_decimal(n: i64) -> (r: String)
    ensures
        r@ == signed_digits(n as int),
{
    if n < 0 {
        let mut out = String::new();
        out.push('-');
        let m: u64 = if n == i64::MIN {
            9_223_372_036_854_775_808
        } else {
            (-n) as u64
        };
        out.append(decimal(m).as_str());
        out
    } else {
        decimal(n as u64)
    }
}

pub open spec fn is_digit_spec(c: char) -> bool {
    '0' <= c && c <= '9'
}

/// An ASCII decimal digit.
#[verifier::when_used_as_spec(is_digit_spec)]
pub fn is_digit(c: char) -> (r: bool)
    ensures
        r == is_digit_spec(c),
{
    '0' <= c && c <= '9'
}

pub open spec fn all_digits(s: Seq<char>) -> bool {
    forall|i: int| 0 <= i < s.len() ==> is_digit(#[trigger] s[i])
}

/// Whether a text holds nothing but decimal digits.
pub fn only_digits(s: &str) -> (r: bool)
    ensures
        r == all_digits(s@),
{
    let v = chars_of(s);
    let mut i: usize = 0;
    while i < v.len()
        invariant
            i <= v.len(),
            v@ == s@,
            forall|k: int| 0 <= k < i ==> is_digit(#[trigger] v@[k]),
        decreases v.len() - i,
    {
        if !is_digit(v[i]) {
            return false;
        }
        i += 1;
    }
    true
}

/// The number that a sequence of decimal digits stands for.
pub open spec fn value(s: Seq<char>) -> nat
    decreases s.len(),
{
    if s.len() == 0 {
        0
    } else {
        value(s.drop_last()) * 10 + (s.last() as nat - 48) as nat
    }
}

/// Reading a natural number: an optional `+`, then at least one digit and
/// nothing else.
pub open spec fn unsigned(s: Seq<char>) -> Option<nat> {
    let d = if s.len() > 0 && s[0] == '+' {
        s.skip(1)
    } else {
        s
    };
    if d.len() > 0 && all_digits(d) {
        Some(value(d))
    } else {
        None
    }
}

/// Reading an integer: an optional `+` or `-`, then at least one digit and
/// nothing else.
pub open spec fn signed(s: Seq<char>) -> Option<int> {
    if s.len() > 0 && s[0] == '-' {
        let d = s.skip(1);
        if d.len() > 0 && all_digits(d) {
            Some(-(value(d) as int))
        } else {
            None
        }
    } else {
        match unsigned(s) {
            Some(n) => Some(n as int),
            None => None,
        }
    }
}

/// Appending a digit multiplies by ten, so a longer number is no smaller.
proof fn lemma_value_monotone(s: Seq<char>, i: int)
    requires
        0 <= i <= s.len(),
        all_digits(s),
    ensures
        value(s.take(i)) <= value(s),
    decreases s.len() - i,
{
    if i == s.len() {
        assert(s.take(i) =~= s);
    } else {
        lemma_value_monotone(s, i + 1);
        assert(s.take(i + 1).drop_last() =~= s.take(i));
        assert(is_digit(s[i]));
    }
}

/// The digits of `d[from..]` as a number no larger than `max`.
fn digits_value(d: &Vec<char>, from: usize, max: u64) -> (r: Option<u64>)
    requires
        from <= d.len(),
    ensures
        ({
            let t = d@.skip(from as int);
            match r {
                Some(n) => t.len() > 0 && all_digits(t) && value(t) == n && n <= max,
                None => !(t.len() > 0 && all_digits(t) && value(t) <= max),
            }
        }),
{
    if from == d.len() {
        return None;
    }
    let ghost t = d@.skip(from as int);
    let mut n: u64 = 0;
    let mut i: usize = from;
    while i < d.len()
        invariant
            from <= i <= d.len(),
            t == d@.skip(from as int),
            n <= max,
            forall|k: int| 0 <= k < i - from ==> is_digit(#[trigger] t[k]),
            n == value(t.take(i - from)),
        decreases d.len() - i,
    {
        let c = d[i];
        assert(t[i - from] == c);
        if !is_digit(c) {
            return None;
        }
        let v = c as u64 - 48;
        assert(t.take(i + 1 - from).drop_last() =~= t.take(i - from));
        if n > (u64::MAX - v) / 10 || n * 10 + v > max {
            proof {
                if all_digits(t) {
                    lemma_value_monotone(t, i + 1 - from);
                }
            }
            return None;
        }
        n = n * 10 + v;
        i += 1;
    }
    assert(t.take(i - from) =~= t);
    Some(n)
}

/// Read a natural number that is at most `max`.
pub fn parse_unsigned(s: &str, max: u64) -> (r: Option<u64>)
    ensures
        r == (match unsigned(s@) {
            Some(n) => if n <= max {
                Some(n as u64)
            } else {
                None
            },
            None => None,
        }),
{
    let d = chars_of(s);
    if d.len() > 0 && d[0] == '+' {
        digits_value(&d, 1, max)
    } else {
        assert(d@.skip(0) =~= d@);
        digits_value(&d, 0, max)
    }
}

/// Read an integer between `-max - 1` and `max`.
pub fn parse_signed(s: &str, max: i64) -> (r: Option<i64>)
    requires
        max >= 0,
    ensures
        r == (match signed(s@) {
            Some(n) => if -max - 1 <= n <= max {
                Some(n as i64)
            } else {
                None
            },
            None => None,
        }),
{
    let d = chars_of(s);
    if d.len() > 0 && d[0] == '-' {
        match digits_value(&d, 1, max as u64 + 1) {
            Some(n) => {
                if n == max as u64 + 1 {
                    Some(-max - 1)
                } else {
                    Some(-(n as i64))
                }
            },
            None => None,
        }
    } else if d.len() > 0 && d[0] == '+' {
        match digits_value(&d, 1, max as u64) {
            Some(n) => Some(n as i64),
            None => None,
        }
    } else {
        assert(d@.skip(0) =~= d@);
        match digits_value(&d, 0, max as u64) {
            Some(n) => Some(n as i64),
            None => None,
        }
    }
}

/// What was written in decimal is read back as the same number.
pub proof fn decimal_round_trip(n: nat)
    ensures
        unsigned(digits(n)) == Some(n),
        signed(digits(n)) == Some(n as int),
{
    lemma_digits(n);
    assert(is_digit(digits(n)[0]));
}

/// A number in decimal is made of digits, at least one.
pub proof fn lemma_digits(n: nat)
    ensures
        digits(n).len() > 0,
        all_digits(digits(n)),
        value(digits(n)) == n,
    decreases n,
{
    if n < 10 {
        reveal_with_fuel(value, 2);
        assert(digits(n).drop_last() =~= Seq::<char>::empty());
        assert(digits(n).last() == digit_char(n));
    } else {
        lemma_digits(n / 10);
        let p = digits(n / 10);
        assert(digits(n).drop_last() =~= p);
        assert forall|i: int| 0 <= i < digits(n).len() implies is_digit(#[trigger] digits(n)[i]) by {
            if i < p.len() {
                assert(digits(n)[i] == p[i]);
            }
        }
    }
}

// ---- white space ----

pub open spec fn is_white_spec(c: char) -> bool {
    let n = c as u32;
    ||| 9 <= n <= 13
    ||| n == 0x20
    ||| n == 0x85
    ||| n == 0xA0
    ||| n == 0x1680
    ||| 0x2000 <= n <= 0x200A
    ||| n == 0x2028
    ||| n == 0x2029
    ||| n == 0x202F
    ||| n == 0x205F
    ||| n == 0x3000
}

/// A character with the Unicode property White_Space.
#[verifier::when_used_as_spec(is_white_spec)]
pub fn is_white(c: char) -> (r: bool)
    ensures
        r == is_white_spec(c),
{
    let n = c as u32;
    (9 <= n && n <= 13) || n == 0x20 || n == 0x85 || n == 0xA0 || n == 0x1680 || (0x2000 <= n
        && n <= 0x200A) || n == 0x2028 || n == 0x2029 || n == 0x202F || n == 0x205F || n == 0x3000
}

/// How many white space characters `s` begins with.
pub open spec fn leading_white(s: Seq<char>) -> nat
    decreases s.len(),
{
    if s.len() > 0 && is_white(s[0]) {
        1 + leading_white(s.skip(1))
    } else {
        0
    }
}

/// How many white space characters `s` ends with.
pub open spec fn trailing_white(s: Seq<char>) -> nat
    decreases s.len(),
{
    if s.len() > 0 && is_white(s.last()) {
        1 + trailing_white(s.drop_last())
    } else {
        0
    }
}

/// `s` without the white space at its start.
pub open spec fn trimmed_start(s: Seq<char>) -> Seq<char> {
    s.skip(leading_white(s) as int)
}

/// `s` without the white space at its end.
pub open spec fn trimmed_end(s: Seq<char>) -> Seq<char> {
    s.take(s.len() - trailing_white(s))
}

/// `s` without the white space at either end.
pub open spec fn trimmed(s: Seq<char>) -> Seq<char> {
    trimmed_end(trimmed_start(s))
}

proof fn lemma_leading_white(s: Seq<char>, n: int)
    requires
        0 <= n <= s.len(),
        forall|k: int| 0 <= k < n ==> is_white(#[trigger] s[k]),
        n < s.len() ==> !is_white(s[n]),
    ensures
        leading_white(s) == n,
    decreases n,
{
    if n > 0 {
        assert(is_white(s[0]));
        assert forall|k: int| 0 <= k < n - 1 implies is_white(#[trigger] s.skip(1)[k]) by {
            assert(s.skip(1)[k] == s[k + 1]);
        }
        lemma_leading_white(s.skip(1), n - 1);
    }
}

proof fn lemma_trailing_white(s: Seq<char>, n: int)
    requires
        0 <= n <= s.len(),
        forall|k: int| s.len() - n <= k < s.len() ==> is_white(#[trigger] s[k]),
        n < s.len() ==> !is_white(s[s.len() - n - 1]),
    ensures
        trailing_white(s) == n,
    decreases n,
{
    if n > 0 {
        assert(is_white(s[s.len() - 1]));
        lemma_trailing_white(s.drop_last(), n - 1);
    }
}

pub fn trim_start<'a>(s: &'a str) -> (r: &'a str)
    ensures
        r@ == trimmed_start(s@),
{
    let v = chars_of(s);
    let mut i: usize = 0;
    while i < v.len() && is_white(v[i])
        invariant
            i <= v.len(),
            forall|k: int| 0 <= k < i ==> is_white(#[trigger] v@[k]),
        decreases v.len() - i,
    {
        i += 1;
    }
    proof {
        lemma_leading_white(v@, i as int);
    }
    assert(v@.subrange(i as int, v.len() as int) =~= v@.skip(i as int));
    s.substring_char(i, v.len())
}

pub fn trim_end<'a>(s: &'a str) -> (r: &'a str)
    ensures
        r@ == trimmed_end(s@),
{
    let v = chars_of(s);
    let mut j: usize = v.len();
    while j > 0 && is_white(v[j - 1])
        invariant
            j <= v.len(),
            forall|k: int| j <= k < v.len() ==> is_white(#[trigger] v@[k]),
        decreases j,
    {
        j -= 1;
    }
    proof {
        lemma_trailing_white(v@, v.len() - j);
    }
    assert(v@.subrange(0, j as int) =~= v@.take(j as int));
    s.substring_char(0, j)
}

pub fn trim<'a>(s: &'a str) -> (r: &'a str)
    ensures
        r@ == trimmed(s@),
{
    trim_end(trim_start(s))
}

/// What is left after trimming is a part of the text, in its place.
pub proof fn lemma_trimmed_part(s: Seq<char>)
    ensures
        leading_white(s) + trimmed(s).len() <= s.len(),
        forall|i: int|
            0 <= i < trimmed(s).len() ==> #[trigger] trimmed(s)[i] == s[leading_white(s) + i],
{
    lemma_leading_at_most(s);
    lemma_trailing_at_most(trimmed_start(s));
}

/// A text that neither begins nor ends with white space is trimmed already.
pub proof fn nothing_to_trim(s: Seq<char>)
    requires
        s.len() > 0,
        !is_white(s[0]),
        !is_white(s.last()),
    ensures
        trimmed(s) == s,
{
    assert(trimmed_start(s) =~= s);
    assert(trimmed_end(s) =~= s);
}

/// A text that does not begin with white space keeps its first character.
pub proof fn lemma_trimmed_front(s: Seq<char>)
    requires
        s.len() > 0 ==> !is_white(s[0]),
    ensures
        s.len() > 0 ==> trimmed(s).len() > 0 && trimmed(s)[0] == s[0],
        s.len() == 0 ==> trimmed(s).len() == 0,
{
    assert(trimmed_start(s) =~= s);
    if s.len() > 0 {
        lemma_not_all_white(s);
    }
}

proof fn lemma_not_all_white(s: Seq<char>)
    requires
        s.len() > 0,
        !is_white(s[0]),
    ensures
        trailing_white(s) < s.len(),
    decreases s.len(),
{
    if is_white(s.last()) {
        assert(s.drop_last()[0] == s[0]);
        lemma_not_all_white(s.drop_last());
    }
}

proof fn lemma_leading_at_most(s: Seq<char>)
    ensures
        leading_white(s) <= s.len(),
    decreases s.len(),
{
    if s.len() > 0 && is_white(s[0]) {
        lemma_leading_at_most(s.skip(1));
    }
}

proof fn lemma_trailing_at_most(s: Seq<char>)
    ensures
        trailing_white(s) <= s.len(),
    decreases s.len(),
{
    if s.len() > 0 && is_white(s.last()) {
        lemma_trailing_at_most(s.drop_last());
    }
}

// ---- letters ----

pub open spec fn lower_char_spec(c: char) -> char {
    if 'A' <= c && c <= 'Z' {
        (c as u32 + 32) as char
    } else {
        c
    }
}

/// An ASCII capital becomes its small letter; every other character stays.
#[verifier::when_used_as_spec(lower_char_spec)]
pub fn lower_char(c: char) -> (r: char)
    ensures
        r == lower_char_spec(c),
{
    if 'A' <= c && c <= 'Z' {
        (c as u8 + 32) as char
    } else {
        c
    }
}

/// `s` with its ASCII capitals made small.
pub open spec fn folded(s: Seq<char>) -> Seq<char> {
    s.map_values(|c: char| lower_char(c))
}

/// The text with its ASCII capitals made small.
pub fn to_ascii_lower(s: &str) -> (r: String)
    ensures
        r@ == folded(s@),
{
    let v = chars_of(s);
    let mut out = String::new();
    let mut i: usize = 0;
    while i < v.len()
        invariant
            i <= v.len(),
            v@ == s@,
            out@ =~= folded(s@).take(i as int),
        decreases v.len() - i,
    {
        out.push(lower_char(v[i]));
        i += 1;
    }
    assert(out@ =~= folded(s@));
    out
}

/// Whether two strings are equal when ASCII capitals count as small letters.
pub fn eq_ignore_ascii_case(a: &str, b: &str) -> (r: bool)
    ensures
        r == (folded(a@) == folded(b@)),
{
    let x = chars_of(a);
    let y = chars_of(b);
    assert(folded(a@).len() == x.len() && folded(b@).len() == y.len());
    if x.len() != y.len() {
        return false;
    }
    let mut i: usize = 0;
    while i < x.len()
        invariant
            i <= x.len(),
            x.len() == y.len(),
            x@ == a@,
            y@ == b@,
            forall|k: int| 0 <= k < i ==> lower_char(#[trigger] x@[k]) == lower_char(y@[k]),
        decreases x.len() - i,
    {
        if lower_char(x[i]) != lower_char(y[i]) {
            assert(folded(a@)[i as int] != folded(b@)[i as int]);
            return false;
        }
        i += 1;
    }
    assert(folded(a@) =~= folded(b@));
    true
}

pub open spec fn is_ascii_alnum_spec(c: char) -> bool {
    ||| 'a' <= c && c <= 'z'
    ||| 'A' <= c && c <= 'Z'
    ||| '0' <= c && c <= '9'
}

/// An ASCII letter or digit.
#[verifier::when_used_as_spec(is_ascii_alnum_spec)]
pub fn is_ascii_alnum(c: char) -> (r: bool)
    ensures
        r == is_ascii_alnum_spec(c),
{
    ('a' <= c && c <= 'z') || ('A' <= c && c <= 'Z') || ('0' <= c && c <= '9')
}

pub open spec fn ascii(s: Seq<char>) -> bool {
    forall|i: int| 0 <= i < s.len() ==> (#[trigger] s[i] as u32) < 128
}

/// What `str::to_lowercase` makes of a string.
pub uninterp spec fn lowercase(s: Seq<char>) -> Seq<char>;

/// `str::to_lowercase`: the lower case of every character, by the Unicode
/// tables. Of those tables only the ASCII part is stated here.
#[verifier::external_body]
pub(crate) fn to_lower(s: &str) -> (r: String)
    ensures
        r@ == lowercase(s@),
        ascii(s@) ==> r@ == folded(s@),
{
    s.to_lowercase()
}

pub open spec fn raised_char(c: char) -> char {
    if 'a' <= c && c <= 'z' {
        (c as u32 - 32) as char
    } else {
        c
    }
}

/// `s` with its ASCII small letters made capital.
pub open spec fn raised(s: Seq<char>) -> Seq<char> {
    s.map_values(|c: char| raised_char(c))
}

/// What `str::to_uppercase` makes of a string.
pub uninterp spec fn uppercase(s: Seq<char>) -> Seq<char>;

/// `str::to_uppercase`: the upper case of every character, by the Unicode
/// tables. Of those tables only the ASCII part is stated here.
#[verifier::external_body]
pub(crate) fn to_upper(s: &str) -> (r: String)
    ensures
        r@ == uppercase(s@),
        ascii(s@) ==> r@ == raised(s@),
{
    s.to_uppercase()
}

/// What `char::is_alphanumeric` answers.
pub uninterp spec fn alphanumeric(c: char) -> bool;

/// `char::is_alphanumeric`: a letter or a number, by the Unicode tables. Of
/// those tables only the ASCII part is stated here.
pub assume_specification[ char::is_alphanumeric ](c: char) -> (r: bool)
    ensures
        r == alphanumeric(c),
        (c as u32) < 128 ==> r == is_ascii_alnum(c),
;

// ---- hexadecimal ----

/// The lower case hexadecimal digit for a number below sixteen.
pub open spec fn hex_digit_spec(d: int) -> char {
    if d < 10 {
        ('0' as int + d) as char
    } else {
        ('a' as int + d - 10) as char
    }
}

fn hex_digit(d: u64) -> (c: char)
    requires
        d < 16,
    ensures
        c == hex_digit_spec(d as int),
{
    if d < 10 {
        (48 + d as u8) as char
    } else {
        (87 + d as u8) as char
    }
}

/// The last `width` hexadecimal digits of a number, zeros in front.
pub open spec fn hex_digits(n: nat, width: nat) -> Seq<char>
    decreases width,
{
    if width == 0 {
        seq![]
    } else {
        hex_digits(n / 16, (width - 1) as nat).push(hex_digit_spec((n % 16) as int))
    }
}

pub fn hex(n: u64, width: usize) -> (r: String)
    ensures
        r@ == hex_digits(n as nat, width as nat),
    decreases width,
{
    if width == 0 {
        return String::new();
    }
    let mut out = hex(n / 16, width - 1);
    out.push(hex_digit(n % 16));
    out
}

// ---- searching ----

/// Whether `needle` stands in `s` at position `i`.
pub open spec fn at(s: Seq<char>, i: int, needle: Seq<char>) -> bool {
    &&& 0 <= i
    &&& i + needle.len() <= s.len()
    &&& s.subrange(i, i + needle.len()) == needle
}

/// Whether `needle` occurs in `s`.
pub open spec fn occurs(s: Seq<char>, needle: Seq<char>) -> bool {
    exists|i: int| at(s, i, needle)
}

/// The first position of `needle` in `s` that is `i` or later.
pub open spec fn first_from(s: Seq<char>, needle: Seq<char>, i: int) -> Option<int>
    decreases s.len() + 1 - i,
{
    if i + needle.len() > s.len() {
        None
    } else if at(s, i, needle) {
        Some(i)
    } else {
        first_from(s, needle, i + 1)
    }
}

/// The first position of `needle` in `s`.
pub open spec fn first(s: Seq<char>, needle: Seq<char>) -> Option<int> {
    first_from(s, needle, 0)
}

fn matches_at(v: &Vec<char>, i: usize, n: &Vec<char>) -> (r: bool)
    requires
        i + n.len() <= v.len(),
    ensures
        r == at(v@, i as int, n@),
{
    let mut k: usize = 0;
    while k < n.len()
        invariant
            k <= n.len(),
            i + n.len() <= v.len(),
            forall|j: int| 0 <= j < k ==> v@[i + j] == #[trigger] n@[j],
        decreases n.len() - k,
    {
        if v[i + k] != n[k] {
            assert(v@.subrange(i as int, i + n.len())[k as int] != n@[k as int]);
            return false;
        }
        k += 1;
    }
    assert(v@.subrange(i as int, i + n.len()) =~= n@);
    true
}

/// Find `n` in `v` at position `from` or later.
pub fn find_from(v: &Vec<char>, n: &Vec<char>, from: usize) -> (r: Option<usize>)
    ensures
        match first_from(v@, n@, from as int) {
            Some(i) => r == Some(i as usize) && from <= i <= v.len() && at(v@, i, n@),
            None => r is None,
        },
{
    if n.len() > v.len() {
        return None;
    }
    let mut i: usize = from;
    while i <= v.len() - n.len()
        invariant
            n.len() <= v.len(),
            from <= i,
            first_from(v@, n@, from as int) == first_from(v@, n@, i as int),
        decreases v.len() + 1 - i,
    {
        if matches_at(v, i, n) {
            return Some(i);
        }
        if i == v.len() - n.len() {
            assert(first_from(v@, n@, i + 1) is None);
            return None;
        }
        i += 1;
    }
    None
}

pub proof fn lemma_first_from(s: Seq<char>, needle: Seq<char>, i: int)
    requires
        0 <= i,
    ensures
        match first_from(s, needle, i) {
            Some(k) => i <= k && at(s, k, needle) && forall|j: int| i <= j < k ==> !at(s, j, needle),
            None => forall|j: int| i <= j ==> !at(s, j, needle),
        },
    decreases s.len() + 1 - i,
{
    if i + needle.len() <= s.len() && !at(s, i, needle) {
        lemma_first_from(s, needle, i + 1);
    }
}

/// Whether `needle` occurs in `s`.
pub fn contains(s: &str, needle: &str) -> (r: bool)
    ensures
        r == occurs(s@, needle@),
{
    let v = chars_of(s);
    let n = chars_of(needle);
    proof {
        lemma_first_from(v@, n@, 0);
    }
    find_from(&v, &n, 0).is_some()
}

pub fn starts_with(s: &str, prefix: &str) -> (r: bool)
    ensures
        r == prefix@.is_prefix_of(s@),
{
    let v = chars_of(s);
    let n = chars_of(prefix);
    n.len() <= v.len() && matches_at(&v, 0, &n)
}

pub fn ends_with(s: &str, suffix: &str) -> (r: bool)
    ensures
        r == suffix@.is_suffix_of(s@),
{
    let v = chars_of(s);
    let n = chars_of(suffix);
    n.len() <= v.len() && matches_at(&v, v.len() - n.len(), &n)
}

/// What follows `prefix` in `s`, where `s` begins with it.
pub fn strip_prefix<'a>(s: &'a str, prefix: &str) -> (r: Option<&'a str>)
    ensures
        match r {
            Some(t) => prefix@.is_prefix_of(s@) && t@ == s@.skip(prefix@.len() as int),
            None => !prefix@.is_prefix_of(s@),
        },
{
    if starts_with(s, prefix) {
        let n = s.unicode_len();
        let p = prefix.unicode_len();
        assert(s@.subrange(p as int, n as int) =~= s@.skip(p as int));
        Some(s.substring_char(p, n))
    } else {
        None
    }
}

/// What precedes `suffix` in `s`, where `s` ends with it.
pub fn strip_suffix<'a>(s: &'a str, suffix: &str) -> (r: Option<&'a str>)
    ensures
        match r {
            Some(t) => suffix@.is_suffix_of(s@) && t@ == s@.take(s@.len() - suffix@.len()),
            None => !suffix@.is_suffix_of(s@),
        },
{
    if ends_with(s, suffix) {
        let n = s.unicode_len();
        let p = suffix.unicode_len();
        assert(s@.subrange(0, n - p) =~= s@.take(n - p));
        Some(s.substring_char(0, n - p))
    } else {
        None
    }
}

// ---- splitting and joining ----

/// The pieces of `s` between the occurrences of `sep`.
pub open spec fn split(s: Seq<char>, sep: Seq<char>) -> Seq<Seq<char>>
    decreases s.len(),
{
    match first(s, sep) {
        Some(i) => if sep.len() > 0 && 0 <= i && i + sep.len() <= s.len() {
            seq![s.take(i)] + split(s.skip(i + sep.len()), sep)
        } else {
            seq![s]
        },
        None => seq![s],
    }
}

/// The sequences of characters of a list of strings.
pub open spec fn views(v: Seq<String>) -> Seq<Seq<char>> {
    v.map_values(|s: String| s@)
}

pub proof fn lemma_views_push(v: Seq<String>, s: String)
    ensures
        views(v.push(s)) == views(v).push(s@),
{
    assert(views(v.push(s)) =~= views(v).push(s@));
}

/// A copy of a list of strings.
pub fn clone_strings(v: &Vec<String>) -> (r: Vec<String>)
    ensures
        views(r@) == views(v@),
{
    let mut out: Vec<String> = Vec::new();
    let mut i: usize = 0;
    while i < v.len()
        invariant
            i <= v.len(),
            views(out@) =~= views(v@).take(i as int),
        decreases v.len() - i,
    {
        let s = v[i].clone();
        proof {
            lemma_views_push(out@, s);
        }
        out.push(s);
        i += 1;
    }
    assert(views(v@).take(i as int) =~= views(v@));
    out
}

/// The part of `v` from `a` up to `b`.
pub fn slice_string(v: &Vec<char>, a: usize, b: usize) -> (r: String)
    requires
        a <= b <= v.len(),
    ensures
        r@ == v@.subrange(a as int, b as int),
{
    let mut out = String::new();
    let mut i: usize = a;
    while i < b
        invariant
            a <= i <= b <= v.len(),
            out@ =~= v@.subrange(a as int, i as int),
        decreases b - i,
    {
        out.push(v[i]);
        i += 1;
    }
    out
}

pub proof fn lemma_first_skip(s: Seq<char>, needle: Seq<char>, from: int, i: int)
    requires
        0 <= from <= s.len(),
        0 <= i,
    ensures
        match first_from(s.skip(from), needle, i) {
            Some(k) => first_from(s, needle, from + i) == Some(from + k),
            None => first_from(s, needle, from + i) is None,
        },
    decreases s.len() + 1 - from - i,
{
    if i + needle.len() <= s.len() - from {
        assert(s.skip(from).subrange(i, i + needle.len()) =~= s.subrange(
            from + i,
            from + i + needle.len(),
        ));
        if !at(s.skip(from), i, needle) {
            lemma_first_skip(s, needle, from, i + 1);
        }
    }
}

/// Split `s` at every `sep`.
pub fn split_at_all(s: &str, sep: &str) -> (r: Vec<String>)
    requires
        sep@.len() > 0,
    ensures
        views(r@) == split(s@, sep@),
{
    let v = chars_of(s);
    let n = chars_of(sep);
    let mut out: Vec<String> = Vec::new();
    let mut from: usize = 0;
    assert(v@.skip(0) =~= v@);
    loop
        invariant
            from <= v.len(),
            v@ == s@,
            n@ == sep@,
            n.len() > 0,
            views(out@) + split(v@.skip(from as int), sep@) =~= split(s@, sep@),
        decreases v.len() - from,
    {
        proof {
            lemma_first_skip(v@, n@, from as int, 0);
        }
        match find_from(&v, &n, from) {
            Some(i) => {
                let ghost before = out@;
                out.push(slice_string(&v, from, i));
                proof {
                    assert(v@.skip(from as int).take(i - from) =~= v@.subrange(from as int, i as int));
                    assert(v@.skip(from as int).skip(i - from + n.len()) =~= v@.skip(i + n.len()));
                    assert(views(out@) =~= views(before).push(v@.subrange(from as int, i as int)));
                }
                from = i + n.len();
            },
            None => {
                let ghost before = out@;
                out.push(slice_string(&v, from, v.len()));
                proof {
                    assert(v@.subrange(from as int, v.len() as int) =~= v@.skip(from as int));
                    assert(views(out@) =~= views(before).push(v@.skip(from as int)));
                }
                return out;
            },
        }
    }
}

/// The pieces put together, with `sep` between each two.
pub open spec fn joined(parts: Seq<Seq<char>>, sep: Seq<char>) -> Seq<char>
    decreases parts.len(),
{
    if parts.len() == 0 {
        seq![]
    } else if parts.len() == 1 {
        parts[0]
    } else {
        joined(parts.drop_last(), sep) + sep + parts.last()
    }
}

/// Putting pieces together and splitting at the separator gives the pieces
/// back, as long as none of them holds it.
pub proof fn splitting_undoes_joining(parts: Seq<Seq<char>>, c: char)
    requires
        parts.len() > 0,
        forall|i: int| 0 <= i < parts.len() ==> !(#[trigger] parts[i]).contains(c),
    ensures
        split(joined(parts, seq![c]), seq![c]) == parts,
    decreases parts.len(),
{
    let sep = seq![c];
    if parts.len() == 1 {
        let s = parts[0];
        lemma_first_from(s, sep, 0);
        if let Some(k) = first(s, sep) {
            assert(s.subrange(k, k + 1)[0] == c);
            assert(s.contains(s[k]));
        }
        assert(split(s, sep) =~= parts);
    } else {
        let head = parts[0];
        let rest = parts.skip(1);
        lemma_joined_front(parts, sep);
        assert forall|i: int| 0 <= i < rest.len() implies !(#[trigger] rest[i]).contains(c) by {
            assert(rest[i] == parts[i + 1]);
        }
        splitting_undoes_joining(rest, c);
        let s = joined(parts, sep);
        assert(s =~= head + sep + joined(rest, sep));
        lemma_first_from(s, sep, 0);
        let n = head.len() as int;
        assert(s.subrange(n, n + 1) =~= sep);
        assert(at(s, n, sep));
        let k = first(s, sep)->0;
        if k < n {
            assert(s.subrange(k, k + 1)[0] == c);
            assert(s[k] == head[k]);
            assert(head.contains(head[k]));
        }
        assert(k == n);
        assert(s.take(n) =~= head);
        assert(s.skip(n + 1) =~= joined(rest, sep));
        assert(seq![head] + rest =~= parts);
        assert(split(s, sep) =~= parts);
    }
}

proof fn lemma_joined_front(parts: Seq<Seq<char>>, sep: Seq<char>)
    requires
        parts.len() > 1,
    ensures
        joined(parts, sep) == parts[0] + sep + joined(parts.skip(1), sep),
    decreases parts.len(),
{
    let p = parts.drop_last();
    let rest = parts.skip(1);
    if parts.len() == 2 {
        assert(joined(p, sep) == parts[0]);
        assert(rest =~= seq![parts[1]]);
        assert(joined(parts, sep) =~= parts[0] + sep + joined(rest, sep));
    } else {
        lemma_joined_front(p, sep);
        assert(p.skip(1) =~= rest.drop_last());
        assert(joined(parts, sep) =~= parts[0] + sep + joined(rest, sep));
    }
}

/// Splitting a text and putting the pieces together again gives the text back.
pub proof fn joining_undoes_splitting(s: Seq<char>, sep: Seq<char>)
    requires
        sep.len() > 0,
    ensures
        joined(split(s, sep), sep) == s,
    decreases s.len(),
{
    lemma_first_from(s, sep, 0);
    match first(s, sep) {
        Some(k) => {
            let rest = s.skip(k + sep.len());
            joining_undoes_splitting(rest, sep);
            let parts = split(s, sep);
            lemma_split_not_empty(rest, sep);
            assert(parts =~= seq![s.take(k)] + split(rest, sep));
            assert(parts.skip(1) =~= split(rest, sep));
            lemma_joined_front(parts, sep);
            assert(s =~= s.take(k) + s.subrange(k, k + sep.len()) + rest);
        },
        None => {},
    }
}

pub fn join(parts: &Vec<String>, sep: &str) -> (r: String)
    ensures
        r@ == joined(views(parts@), sep@),
{
    let mut out = String::new();
    let mut i: usize = 0;
    while i < parts.len()
        invariant
            i <= parts.len(),
            out@ == joined(views(parts@).take(i as int), sep@),
        decreases parts.len() - i,
    {
        assert(views(parts@).take(i + 1).drop_last() =~= views(parts@).take(i as int));
        if i > 0 {
            out.append(sep);
        }
        out.append(parts[i].as_str());
        assert(views(parts@)[i as int] == parts@[i as int]@);
        i += 1;
    }
    assert(views(parts@).take(i as int) =~= views(parts@));
    out
}

/// The words of a text and the word that is being read.
pub struct Words {
    pub done: Seq<Seq<char>>,
    pub word: Seq<char>,
}

impl Words {
    /// The words, the last one ended.
    pub open spec fn ended(self) -> Seq<Seq<char>> {
        if self.word.len() > 0 {
            self.done.push(self.word)
        } else {
            self.done
        }
    }
}

/// Reading `s` from left to right: white space ends a word.
pub open spec fn reading(s: Seq<char>) -> Words
    decreases s.len(),
{
    if s.len() == 0 {
        Words { done: seq![], word: seq![] }
    } else {
        let w = reading(s.drop_last());
        if is_white(s.last()) {
            Words { done: w.ended(), word: seq![] }
        } else {
            Words { done: w.done, word: w.word.push(s.last()) }
        }
    }
}

/// The words of `s`: the longest runs without white space.
pub open spec fn words(s: Seq<char>) -> Seq<Seq<char>> {
    reading(s).ended()
}

pub fn split_words(s: &str) -> (r: Vec<String>)
    ensures
        views(r@) == words(s@),
{
    let v = chars_of(s);
    let mut out: Vec<String> = Vec::new();
    let mut word = String::new();
    let mut empty = true;
    let mut i: usize = 0;
    while i < v.len()
        invariant
            i <= v.len(),
            empty == (word@.len() == 0),
            views(out@) == reading(v@.take(i as int)).done,
            word@ == reading(v@.take(i as int)).word,
        decreases v.len() - i,
    {
        let c = v[i];
        assert(v@.take(i + 1).drop_last() =~= v@.take(i as int));
        if is_white(c) {
            if !empty {
                proof {
                    lemma_views_push(out@, word);
                }
                out.push(word);
                word = String::new();
                empty = true;
            }
        } else {
            word.push(c);
            empty = false;
        }
        i += 1;
    }
    assert(v@.take(i as int) =~= v@);
    if !empty {
        proof {
            lemma_views_push(out@, word);
        }
        out.push(word);
    }
    out
}

/// Whether `s` is one of the strings of `v`.
pub fn is_one_of(v: &Vec<String>, s: &str) -> (r: bool)
    ensures
        r == views(v@).contains(s@),
{
    let mut i: usize = 0;
    while i < v.len()
        invariant
            i <= v.len(),
            forall|k: int| 0 <= k < i ==> #[trigger] views(v@)[k] != s@,
        decreases v.len() - i,
    {
        if same(v[i].as_str(), s) {
            assert(views(v@)[i as int] == s@);
            return true;
        }
        i += 1;
    }
    false
}

/// `s` without one carriage return at its end.
pub open spec fn without_return(s: Seq<char>) -> Seq<char> {
    if s.len() > 0 && s.last() == '\r' {
        s.drop_last()
    } else {
        s
    }
}

/// The lines of a text whose pieces between line feeds are `p`. A line feed
/// ends a line, with the carriage return before it if there is one; what
/// follows the last line feed is a line unless it is empty.
pub open spec fn lines_of(p: Seq<Seq<char>>) -> Seq<Seq<char>> {
    let ended = p.drop_last().map_values(|s: Seq<char>| without_return(s));
    if p.last().len() > 0 {
        ended.push(p.last())
    } else {
        ended
    }
}

/// The lines of a text.
pub open spec fn lines(s: Seq<char>) -> Seq<Seq<char>> {
    lines_of(split(s, "\n"@))
}

pub proof fn lemma_split_not_empty(s: Seq<char>, sep: Seq<char>)
    ensures
        split(s, sep).len() > 0,
{
}

/// Split a text into its lines.
pub fn split_lines(s: &str) -> (r: Vec<String>)
    ensures
        views(r@) == lines(s@),
{
    proof {
        reveal_strlit("\n");
        lemma_split_not_empty(s@, "\n"@);
    }
    let p = split_at_all(s, "\n");
    let ghost pieces = views(p@);
    assert(pieces.len() == p.len());
    let ghost ended = pieces.drop_last().map_values(|s: Seq<char>| without_return(s));
    let mut out: Vec<String> = Vec::new();
    let mut i: usize = 0;
    while i < p.len() - 1
        invariant
            i <= p.len() - 1,
            pieces == views(p@),
            ended == pieces.drop_last().map_values(|s: Seq<char>| without_return(s)),
            views(out@) =~= ended.take(i as int),
        decreases p.len() - 1 - i,
    {
        let v = chars_of(p[i].as_str());
        let line = if v.len() > 0 && v[v.len() - 1] == '\r' {
            let line = slice_string(&v, 0, v.len() - 1);
            assert(line@ =~= v@.drop_last());
            line
        } else {
            p[i].clone()
        };
        assert(ended[i as int] == without_return(pieces[i as int]));
        proof {
            lemma_views_push(out@, line);
        }
        out.push(line);
        i += 1;
    }
    assert(ended.take(i as int) =~= ended);
    let last = p[p.len() - 1].clone();
    assert(pieces.last() == last@);
    if !last.as_str().is_empty() {
        proof {
            lemma_views_push(out@, last);
        }
        out.push(last);
    }
    out
}

/// A text made of lines, each ended by a line feed.
pub open spec fn text_of_lines(ls: Seq<Seq<char>>) -> Seq<char>
    decreases ls.len(),
{
    if ls.len() == 0 {
        seq![]
    } else {
        text_of_lines(ls.drop_last()) + ls.last() + "\n"@
    }
}

pub fn write_lines(ls: &Vec<String>) -> (r: String)
    ensures
        r@ == text_of_lines(views(ls@)),
{
    let mut out = String::new();
    let mut i: usize = 0;
    while i < ls.len()
        invariant
            i <= ls.len(),
            out@ == text_of_lines(views(ls@).take(i as int)),
        decreases ls.len() - i,
    {
        assert(views(ls@).take(i + 1).drop_last() =~= views(ls@).take(i as int));
        out.append(ls[i].as_str());
        out.append("\n");
        i += 1;
    }
    assert(views(ls@).take(i as int) =~= views(ls@));
    out
}

/// Whether a text is a single line: it holds no line feed, and ends in no
/// carriage return, which would be taken for a part of the line's end.
pub open spec fn one_line(s: Seq<char>) -> bool {
    &&& forall|i: int| 0 <= i < s.len() ==> #[trigger] s[i] != '\n'
    &&& s.len() > 0 ==> s.last() != '\r'
}

proof fn lemma_split_line(line: Seq<char>, rest: Seq<char>)
    requires
        one_line(line),
    ensures
        split(line + "\n"@ + rest, "\n"@) == seq![line] + split(rest, "\n"@),
{
    reveal_strlit("\n");
    let s = line + "\n"@ + rest;
    let n = line.len() as int;
    lemma_first_from(s, "\n"@, 0);
    assert(s.subrange(n, n + 1) =~= "\n"@);
    assert(at(s, n, "\n"@));
    assert forall|j: int| 0 <= j < n implies !at(s, j, "\n"@) by {
        if at(s, j, "\n"@) {
            assert(s.subrange(j, j + 1)[0] == line[j]);
        }
    }
    assert(first(s, "\n"@) == Some(n));
    assert(s.take(n) =~= line);
    assert(s.skip(n + 1) =~= rest);
}

proof fn lemma_text_of_lines_front(ls: Seq<Seq<char>>)
    requires
        ls.len() > 0,
    ensures
        text_of_lines(ls) == ls[0] + "\n"@ + text_of_lines(ls.skip(1)),
    decreases ls.len(),
{
    if ls.len() == 1 {
        assert(ls.drop_last() =~= Seq::<Seq<char>>::empty());
        assert(ls.skip(1) =~= Seq::<Seq<char>>::empty());
        assert(text_of_lines(ls) =~= ls[0] + "\n"@ + text_of_lines(ls.skip(1)));
    } else {
        lemma_text_of_lines_front(ls.drop_last());
        assert(ls.drop_last().skip(1) =~= ls.skip(1).drop_last());
        assert(text_of_lines(ls) =~= ls[0] + "\n"@ + text_of_lines(ls.skip(1)));
    }
}

proof fn lemma_split_text_of_lines(ls: Seq<Seq<char>>)
    requires
        forall|i: int| 0 <= i < ls.len() ==> one_line(#[trigger] ls[i]),
    ensures
        split(text_of_lines(ls), "\n"@) == ls.push(seq![]),
    decreases ls.len(),
{
    reveal_strlit("\n");
    if ls.len() == 0 {
        assert(first(text_of_lines(ls), "\n"@) is None);
        assert(split(text_of_lines(ls), "\n"@) =~= ls.push(seq![]));
    } else {
        lemma_text_of_lines_front(ls);
        lemma_split_line(ls[0], text_of_lines(ls.skip(1)));
        lemma_split_text_of_lines(ls.skip(1));
        assert(seq![ls[0]] + ls.skip(1).push(seq![]) =~= ls.push(seq![]));
    }
}

/// What was written line by line is read back as the same lines.
pub proof fn lines_round_trip(ls: Seq<Seq<char>>)
    requires
        forall|i: int| 0 <= i < ls.len() ==> one_line(#[trigger] ls[i]),
    ensures
        lines(text_of_lines(ls)) == ls,
{
    lemma_split_text_of_lines(ls);
    assert(ls.push(seq![]).drop_last() =~= ls);
    assert(lines(text_of_lines(ls)) =~= ls);
}

proof fn lemma_split_leading_lines(ls: Seq<Seq<char>>, n: int)
    requires
        0 <= n <= ls.len(),
        forall|i: int| 0 <= i < n ==> one_line(#[trigger] ls[i]),
    ensures
        split(text_of_lines(ls), "\n"@) == ls.take(n) + split(text_of_lines(ls.skip(n)), "\n"@),
    decreases n,
{
    if n == 0 {
        assert(ls.skip(0) =~= ls);
        assert(ls.take(0) + split(text_of_lines(ls), "\n"@) =~= split(text_of_lines(ls), "\n"@));
    } else {
        let rest = ls.skip(1);
        lemma_text_of_lines_front(ls);
        lemma_split_line(ls[0], text_of_lines(rest));
        lemma_split_leading_lines(rest, n - 1);
        assert(rest.skip(n - 1) =~= ls.skip(n));
        assert(seq![ls[0]] + rest.take(n - 1) =~= ls.take(n));
        assert(seq![ls[0]] + (rest.take(n - 1) + split(text_of_lines(ls.skip(n)), "\n"@))
            =~= ls.take(n) + split(text_of_lines(ls.skip(n)), "\n"@));
    }
}

/// The first lines of what was written line by line are read back, whatever
/// comes after them.
pub proof fn leading_lines(ls: Seq<Seq<char>>, n: int)
    requires
        0 <= n <= ls.len(),
        forall|i: int| 0 <= i < n ==> one_line(#[trigger] ls[i]),
    ensures
        lines(text_of_lines(ls)).len() >= n,
        lines(text_of_lines(ls)).take(n) == ls.take(n),
{
    lemma_split_leading_lines(ls, n);
    let p = split(text_of_lines(ls), "\n"@);
    lemma_split_not_empty(text_of_lines(ls.skip(n)), "\n"@);
    assert forall|k: int| 0 <= k < n implies #[trigger] lines_of(p)[k] == ls[k] by {
        assert(p[k] == ls[k]);
        assert(one_line(ls[k]));
        assert(p.drop_last()[k] == p[k]);
    }
    assert(lines_of(p).take(n) =~= ls.take(n));
}

/// The part after the prefix of the first text that begins with it.
pub open spec fn first_after(texts: Seq<Seq<char>>, prefix: Seq<char>) -> Option<Seq<char>>
    decreases texts.len(),
{
    if texts.len() == 0 {
        None
    } else if prefix.is_prefix_of(texts[0]) {
        Some(texts[0].skip(prefix.len() as int))
    } else {
        first_after(texts.skip(1), prefix)
    }
}

pub fn find_after(texts: &Vec<String>, prefix: &str) -> (r: Option<String>)
    ensures
        match r {
            Some(rest) => first_after(views(texts@), prefix@) == Some(rest@),
            None => first_after(views(texts@), prefix@) is None,
        },
{
    let mut i: usize = 0;
    assert(views(texts@).skip(0) =~= views(texts@));
    while i < texts.len()
        invariant
            i <= texts.len(),
            first_after(views(texts@), prefix@) == first_after(
                views(texts@).skip(i as int),
                prefix@,
            ),
        decreases texts.len() - i,
    {
        assert(views(texts@).skip(i as int)[0] == texts@[i as int]@);
        assert(views(texts@).skip(i as int).skip(1) =~= views(texts@).skip(i + 1));
        if let Some(rest) = strip_prefix(texts[i].as_str(), prefix) {
            return Some(rest.to_owned());
        }
        i += 1;
    }
    None
}

/// The texts without the white space around them.
pub open spec fn all_trimmed(texts: Seq<Seq<char>>) -> Seq<Seq<char>> {
    texts.map_values(|t: Seq<char>| trimmed(t))
}

pub fn trim_all(texts: &Vec<String>) -> (r: Vec<String>)
    ensures
        views(r@) == all_trimmed(views(texts@)),
{
    let mut out: Vec<String> = Vec::new();
    let mut i: usize = 0;
    while i < texts.len()
        invariant
            i <= texts.len(),
            views(out@) =~= all_trimmed(views(texts@)).take(i as int),
        decreases texts.len() - i,
    {
        let t = trim(texts[i].as_str()).to_owned();
        proof {
            lemma_views_push(out@, t);
        }
        out.push(t);
        i += 1;
    }
    assert(all_trimmed(views(texts@)).take(i as int) =~= all_trimmed(views(texts@)));
    out
}

/// `s` with every `from` replaced by `to`.
pub open spec fn replaced(s: Seq<char>, from: Seq<char>, to: Seq<char>) -> Seq<char> {
    joined(split(s, from), to)
}

pub fn replace(s: &str, from: &str, to: &str) -> (r: String)
    requires
        from@.len() > 0,
    ensures
        r@ == replaced(s@, from@, to@),
{
    join(&split_at_all(s, from), to)
}

/// How many bytes a text takes.
pub open spec fn byte_count(s: Seq<char>) -> nat {
    vstd::utf8::encode_utf8(s).len()
}

/// The bytes of two texts add up.
pub proof fn byte_count_adds_up(a: Seq<char>, b: Seq<char>)
    ensures
        byte_count(a + b) == byte_count(a) + byte_count(b),
    decreases a.len(),
{
    if a.len() == 0 {
        assert(a + b =~= b);
    } else {
        assert((a + b).drop_first() =~= a.drop_first() + b);
        byte_count_adds_up(a.drop_first(), b);
    }
}

pub fn byte_len(s: &str) -> (r: usize)
    ensures
        r == byte_count(s@),
{
    s.as_bytes().len()
}

// ---- order ----

/// The order of strings: by the first character in which they differ, and a
/// string before those that continue it.
pub open spec fn ordered(a: Seq<char>, b: Seq<char>) -> bool
    decreases a.len(),
{
    if a.len() == 0 {
        true
    } else if b.len() == 0 {
        false
    } else if a[0] != b[0] {
        a[0] < b[0]
    } else {
        ordered(a.skip(1), b.skip(1))
    }
}

/// Of two strings one comes first, or they are equal.
pub proof fn ordered_total(a: Seq<char>, b: Seq<char>)
    ensures
        ordered(a, b) || ordered(b, a),
    decreases a.len(),
{
    if a.len() > 0 && b.len() > 0 && a[0] == b[0] {
        ordered_total(a.skip(1), b.skip(1));
    }
}

pub proof fn ordered_transitive(a: Seq<char>, b: Seq<char>, c: Seq<char>)
    requires
        ordered(a, b),
        ordered(b, c),
    ensures
        ordered(a, c),
    decreases a.len(),
{
    if a.len() > 0 && b.len() > 0 && c.len() > 0 && a[0] == b[0] && b[0] == c[0] {
        ordered_transitive(a.skip(1), b.skip(1), c.skip(1));
    }
}

/// Strings that come both before and after each other are equal.
pub proof fn ordered_antisymmetric(a: Seq<char>, b: Seq<char>)
    requires
        ordered(a, b),
        ordered(b, a),
    ensures
        a == b,
    decreases a.len(),
{
    if a.len() > 0 && b.len() > 0 {
        ordered_antisymmetric(a.skip(1), b.skip(1));
        assert(a =~= seq![a[0]] + a.skip(1));
        assert(b =~= seq![b[0]] + b.skip(1));
    } else {
        assert(a =~= b);
    }
}

/// Whether `a` comes before `b` or is the same.
pub fn comes_first(a: &str, b: &str) -> (r: bool)
    ensures
        r == ordered(a@, b@),
{
    let x = chars_of(a);
    let y = chars_of(b);
    let mut i: usize = 0;
    assert(x@.skip(0) =~= x@);
    assert(y@.skip(0) =~= y@);
    while i < x.len() && i < y.len()
        invariant
            i <= x.len(),
            i <= y.len(),
            x@ == a@,
            y@ == b@,
            ordered(x@, y@) == ordered(x@.skip(i as int), y@.skip(i as int)),
        decreases x.len() - i,
    {
        assert(x@.skip(i as int)[0] == x@[i as int]);
        assert(y@.skip(i as int)[0] == y@[i as int]);
        assert(x@.skip(i as int).skip(1) =~= x@.skip(i + 1));
        assert(y@.skip(i as int).skip(1) =~= y@.skip(i + 1));
        if x[i] != y[i] {
            return x[i] < y[i];
        }
        i += 1;
    }
    i == x.len()
}

/// Whether each string of a list comes before all that follow it.
pub open spec fn in_order(v: Seq<Seq<char>>) -> bool {
    forall|i: int, j: int| 0 <= i < j < v.len() ==> ordered(#[trigger] v[i], #[trigger] v[j])
}

/// Put `s` where it belongs in a list that is in order.
fn insert_in_order(v: &mut Vec<String>, s: String)
    requires
        in_order(views(old(v)@)),
    ensures
        in_order(views(final(v)@)),
        views(final(v)@).to_multiset() == views(old(v)@).to_multiset().insert(s@),
        final(v)@.len() == old(v)@.len() + 1,
{
    let mut i: usize = 0;
    while i < v.len() && comes_first(v[i].as_str(), s.as_str())
        invariant
            i <= v.len(),
            forall|k: int| 0 <= k < i ==> ordered(#[trigger] views(v@)[k], s@),
        decreases v.len() - i,
    {
        assert(views(v@)[i as int] == v@[i as int]@);
        i += 1;
    }
    let ghost w = views(v@);
    let ghost n = s@;
    let ghost at = i as int;
    v.insert(i, s);
    proof {
        let t = views(v@);
        assert(t =~= w.insert(at, n));
        assert(t.remove(at) =~= w);
        vstd::seq_lib::to_multiset_remove(t, at);
        t.to_multiset_ensures();
        assert(t.contains(n)) by {
            assert(t[at] == n);
        }
        assert(t.to_multiset() =~= w.to_multiset().insert(n));
        assert forall|a: int, b: int| 0 <= a < b < t.len() implies ordered(
            #[trigger] t[a],
            #[trigger] t[b],
        ) by {
            if a < at && b == at {
                assert(t[a] == w[a]);
            } else if a == at {
                assert(t[b] == w[b - 1]);
                ordered_total(w[at], n);
                if b - 1 > at {
                    assert(ordered(w[at], w[b - 1]));
                    ordered_transitive(n, w[at], w[b - 1]);
                }
            } else {
                let x = if a < at {
                    a
                } else {
                    a - 1
                };
                let y = if b < at {
                    b
                } else {
                    b - 1
                };
                assert(ordered(w[x], w[y]));
            }
        }
    }
}

/// The same strings, in order.
pub fn sort_strings(v: Vec<String>) -> (r: Vec<String>)
    ensures
        in_order(views(r@)),
        views(r@).to_multiset() == views(v@).to_multiset(),
        r@.len() == v@.len(),
{
    let ghost all = views(v@);
    let mut out: Vec<String> = Vec::new();
    let mut i: usize = 0;
    assert(views(out@) =~= all.take(0));
    while i < v.len()
        invariant
            i <= v.len(),
            all == views(v@),
            in_order(views(out@)),
            views(out@).to_multiset() == all.take(i as int).to_multiset(),
            out@.len() == i,
        decreases v.len() - i,
    {
        proof {
            assert(all.take(i + 1) =~= all.take(i as int).push(all[i as int]));
            vstd::seq_lib::to_multiset_build(all.take(i as int), all[i as int]);
        }
        insert_in_order(&mut out, v[i].clone());
        i += 1;
    }
    assert(all.take(i as int) =~= all);
    out
}

// ---- comparing ----

/// Whether two strings hold the same characters.
pub fn same(a: &str, b: &str) -> (r: bool)
    ensures
        r == (a@ == b@),
{
    let x = chars_of(a);
    let y = chars_of(b);
    if x.len() != y.len() {
        return false;
    }
    let r = matches_at(&x, 0, &y);
    assert(x@.subrange(0, y.len() as int) =~= x@);
    r
}

/// Trimming takes the white space off either end, however much there is, and
/// nothing else.
pub proof fn trimming_takes_white_space_off(before: Seq<char>, s: Seq<char>, after: Seq<char>)
    requires
        s.len() > 0,
        !is_white(s[0]),
        !is_white(s.last()),
        forall|k: int| 0 <= k < before.len() ==> is_white(#[trigger] before[k]),
        forall|k: int| 0 <= k < after.len() ==> is_white(#[trigger] after[k]),
    ensures
        trimmed(before + s + after) == s,
{
    let all = before + s + after;
    let n = before.len() as int;
    assert forall|k: int| 0 <= k < n implies is_white(#[trigger] all[k]) by {
        assert(all[k] == before[k]);
    }
    assert(all[n] == s[0]);
    lemma_leading_white(all, n);
    let rest = trimmed_start(all);
    assert(rest =~= s + after);
    lemma_trailing_after(s, after);
    assert(trimmed_end(rest) =~= s);
}

proof fn lemma_trailing_after(s: Seq<char>, after: Seq<char>)
    requires
        s.len() > 0,
        !is_white(s.last()),
        forall|k: int| 0 <= k < after.len() ==> is_white(#[trigger] after[k]),
    ensures
        trailing_white(s + after) == after.len(),
    decreases after.len(),
{
    let all = s + after;
    if after.len() == 0 {
        assert(all =~= s);
    } else {
        assert(is_white(after[after.len() - 1]));
        assert(all.last() == after.last());
        assert(all.drop_last() =~= s + after.drop_last());
        lemma_trailing_after(s, after.drop_last());
    }
}

/// White space parts words and nothing else does: the words on its left come
/// first, those on its right follow, and a text without any is one word.
pub proof fn white_space_parts_words(a: Seq<char>, c: char, b: Seq<char>, word: Seq<char>)
    requires
        is_white(c),
        word.len() > 0,
        forall|k: int| 0 <= k < word.len() ==> !is_white(#[trigger] word[k]),
    ensures
        words(a.push(c) + b) == words(a) + words(b),
        words(word) == seq![word],
        words(Seq::empty()).len() == 0,
{
    lemma_reading_on(a.push(c), b);
    assert(a.push(c).drop_last() =~= a);
    assert(reading(a.push(c)).word.len() == 0);
    lemma_reading_word(word);
    assert(words(a.push(c) + b) =~= words(a) + words(b));
    assert(words(word) =~= seq![word]);
}

proof fn lemma_reading_on(a: Seq<char>, b: Seq<char>)
    requires
        reading(a).word.len() == 0,
    ensures
        reading(a + b).done == reading(a).done + reading(b).done,
        reading(a + b).word == reading(b).word,
    decreases b.len(),
{
    if b.len() == 0 {
        assert(a + b =~= a);
        assert(reading(a).done + reading(b).done =~= reading(a).done);
        assert(reading(a).word =~= reading(b).word);
    } else {
        lemma_reading_on(a, b.drop_last());
        assert((a + b).drop_last() =~= a + b.drop_last());
        assert((a + b).last() == b.last());
        let w = reading(b.drop_last());
        assert(reading(a).done + w.done.push(w.word) =~= (reading(a).done + w.done).push(w.word));
    }
}

proof fn lemma_reading_word(word: Seq<char>)
    requires
        forall|k: int| 0 <= k < word.len() ==> !is_white(#[trigger] word[k]),
    ensures
        reading(word).done.len() == 0,
        reading(word).word == word,
    decreases word.len(),
{
    if word.len() > 0 {
        assert forall|k: int| 0 <= k < word.drop_last().len() implies !is_white(
            #[trigger] word.drop_last()[k],
        ) by {
            assert(word[k] == word.drop_last()[k]);
        }
        lemma_reading_word(word.drop_last());
        assert(!is_white(word[word.len() - 1]));
        assert(word.drop_last().push(word.last()) =~= word);
    } else {
        assert(reading(word).word =~= word);
    }
}

/// Two numbers that fit into so many hexadecimal digits are written alike only
/// if they are the same.
pub proof fn hex_digits_tell_numbers_apart(one: nat, other: nat, width: nat)
    requires
        one < vstd::arithmetic::power::pow(16, width),
        other < vstd::arithmetic::power::pow(16, width),
        one != other,
    ensures
        hex_digits(one, width) != hex_digits(other, width),
        hex_digits(one, width).len() == width,
        hex_digits(other, width).len() == width,
    decreases width,
{
    if width == 0 {
        vstd::arithmetic::power::lemma_pow0(16);
    } else {
        let w = (width - 1) as nat;
        vstd::arithmetic::power::lemma_pow1(16);
        vstd::arithmetic::power::lemma_pow_adds(16, 1, w);
        let p = vstd::arithmetic::power::pow(16, w);
        assert(vstd::arithmetic::power::pow(16, width) == 16 * p);
        let a = hex_digits(one, width);
        let b = hex_digits(other, width);
        lemma_hex_len(one / 16, w);
        lemma_hex_len(other / 16, w);
        if one / 16 != other / 16 {
            hex_digits_tell_numbers_apart(one / 16, other / 16, w);
            assert(a.drop_last() =~= hex_digits(one / 16, w));
            assert(b.drop_last() =~= hex_digits(other / 16, w));
        } else {
            assert(one % 16 != other % 16);
            assert(a.last() != b.last());
        }
    }
}

proof fn lemma_hex_len(n: nat, width: nat)
    ensures
        hex_digits(n, width).len() == width,
    decreases width,
{
    if width > 0 {
        lemma_hex_len(n / 16, (width - 1) as nat);
    }
}

} // verus!
