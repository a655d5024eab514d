//! Text helpers: decimal numbers and publication dates in words.

use chrono::Datelike;
use vstd::prelude::*;
use vstd::std_specs::iter::IteratorSpec;
use vstd::string::spec_iter;
use crate::models::api_models::opt_text;

verus! {

/// Appends one character to a string.
///
/// Trusted: calls `String::push` of the standard library, which is
/// documented to append the given character to the end of the string.
#[verifier::external_body]
pub(crate) fn push_char(s: &mut String, c: char)
    ensures
        final(s)@ == old(s)@.push(c),
{
    s.push(c)
}

/// The character that writes the digit `d`.
pub open spec fn digit_char(d: int) -> char {
    if d == 0 {
        '0'
    } else if d == 1 {
        '1'
    } else if d == 2 {
        '2'
    } else if d == 3 {
        '3'
    } else if d == 4 {
        '4'
    } else if d == 5 {
        '5'
    } else if d == 6 {
        '6'
    } else if d == 7 {
        '7'
    } else if d == 8 {
        '8'
    } else {
        '9'
    }
}

/// The decimal digits of `n`, most significant first, without leading zeros.
pub open spec fn decimal_digits(n: nat) -> Seq<char>
    decreases n,
{
    if n < 10 {
        seq![digit_char(n as int)]
    } else {
        decimal_digits(n / 10).push(digit_char((n % 10) as int))
    }
}

/// The decimal form of `n`: its digits, after a minus sign if it is negative.
pub open spec fn decimal_text(n: int) -> Seq<char> {
    if n < 0 {
        seq!['-'] + decimal_digits((-n) as nat)
    } else {
        decimal_digits(n as nat)
    }
}

/// The digits still to be written in front of those already produced.
spec fn pending_digits(rest: nat) -> Seq<char> {
    if rest == 0 {
        Seq::empty()
    } else {
        decimal_digits(rest)
    }
}

fn digit(d: u64) -> (c: char)
    requires
        d < 10,
    ensures
        c == digit_char(d as int),
{
    if d == 0 {
        '0'
    } else if d == 1 {
        '1'
    } else if d == 2 {
        '2'
    } else if d == 3 {
        '3'
    } else if d == 4 {
        '4'
    } else if d == 5 {
        '5'
    } else if d == 6 {
        '6'
    } else if d == 7 {
        '7'
    } else if d == 8 {
        '8'
    } else {
        '9'
    }
}

/// Writes the number `magnitude` in decimal, after a minus sign if
/// `negative` is set.
fn signed_digits(magnitude: u64, negative: bool) -> (s: String)
    ensures
        s@ == if negative {
            seq!['-'] + decimal_digits(magnitude as nat)
        } else {
            decimal_digits(magnitude as nat)
        },
{
    let mut reversed: Vec<char> = Vec::new();
    reversed.push(digit(magnitude % 10));
    let mut rest: u64 = magnitude / 10;
    assert(decimal_digits(magnitude as nat) == pending_digits(rest as nat) + reversed@.reverse());
    while rest > 0
        invariant
            decimal_digits(magnitude as nat) == pending_digits(rest as nat) + reversed@.reverse(),
        decreases rest,
    {
        let ghost before = reversed@;
        let c = digit(rest % 10);
        reversed.push(c);
        assert(reversed@.reverse() =~= seq![c] + before.reverse());
        assert(pending_digits(rest as nat) =~= pending_digits((rest / 10) as nat) + seq![c]);
        rest = rest / 10;
    }
    let mut s = String::new();
    if negative {
        push_char(&mut s, '-');
    }
    let ghost sign = s@;
    let mut left: usize = reversed.len();
    while left > 0
        invariant
            left <= reversed.len(),
            s@ == sign + reversed@.reverse().take(reversed.len() - left),
        decreases left,
    {
        left = left - 1;
        push_char(&mut s, reversed[left]);
        assert(reversed@.reverse().take(reversed.len() - left) =~= reversed@.reverse().take(
            reversed.len() - left - 1,
        ).push(reversed@[left as int]));
    }
    assert(reversed@.reverse().take(reversed.len() as int) =~= reversed@.reverse());
    s
}

/// Writes `n` in decimal.
pub fn decimal_string(n: i64) -> (s: String)
    ensures
        s@ == decimal_text(n as int),
{
    if n < 0 {
        let magnitude: u64 = if n == i64::MIN {
            9223372036854775808u64
        } else {
            (-n) as u64
        };
        signed_digits(magnitude, true)
    } else {
        signed_digits(n as u64, false)
    }
}

/// Writes a count in decimal.
pub fn count_string(n: usize) -> (s: String)
    ensures
        s@ == decimal_text(n as int),
{
    signed_digits(n as u64, false)
}

/// The calendar date, as (year, month, day) in UTC, of the instant `secs`
/// seconds after the Unix epoch, where the calendar can represent it.
pub uninterp spec fn utc_calendar_date(secs: i64) -> Option<(i32, u32, u32)>;

/// The calendar date in UTC of a Unix timestamp in seconds.
///
/// Trusted: calls `chrono::DateTime::from_timestamp(secs, 0)` and reads the
/// result with `Datelike::year`, `Datelike::month` and `Datelike::day`. The
/// date is a function of `secs` alone and is known here only by name; `None`
/// stands for a timestamp outside the range of dates that chrono represents.
/// Chrono documents that `month` returns a number from 1 to 12.
#[verifier::external_body]
pub(crate) fn utc_date(secs: i64) -> (date: Option<(i32, u32, u32)>)
    ensures
        date == utc_calendar_date(secs),
        date matches Some((_, month, _)) ==> 1 <= month <= 12,
{
    chrono::DateTime::from_timestamp(secs, 0).map(|t| (t.year(), t.month(), t.date_naive().day()))
}

/// The English name of the month with the given number, January being 1.
pub open spec fn english_month(month: int) -> Option<Seq<char>> {
    if month == 1 {
        Some("January"@)
    } else if month == 2 {
        Some("February"@)
    } else if month == 3 {
        Some("March"@)
    } else if month == 4 {
        Some("April"@)
    } else if month == 5 {
        Some("May"@)
    } else if month == 6 {
        Some("June"@)
    } else if month == 7 {
        Some("July"@)
    } else if month == 8 {
        Some("August"@)
    } else if month == 9 {
        Some("September"@)
    } else if month == 10 {
        Some("October"@)
    } else if month == 11 {
        Some("November"@)
    } else if month == 12 {
        Some("December"@)
    } else {
        None
    }
}

/// The name of a month.
///
/// Trusted: calls `chrono::Month::try_from(u8)`, which maps 1 to `January`
/// and so on up to 12, `December`, and fails on every other number, and
/// prints the month with its derived `Debug` form, the variant's name.
#[verifier::external_body]
pub(crate) fn month_name(month: u8) -> (name: Option<String>)
    ensures
        opt_text(name) == english_month(month as int),
{
    chrono::Month::try_from(month).ok().map(|m| format!("{:?}", m))
}

/// The whole seconds in `millis` milliseconds, rounded towards zero.
pub open spec fn whole_seconds(millis: i64) -> i64 {
    if millis >= 0 {
        (millis / 1000) as i64
    } else {
        (-((-millis) / 1000)) as i64
    }
}

/// A date in words: the day of the month, the month's English name and the
/// year, separated by single spaces.
pub open spec fn date_text(year: i32, month: u32, day: u32) -> Seq<char> {
    decimal_text(day as int) + seq![' '] + english_month(month as int).unwrap() + seq![' ']
        + decimal_text(year as int)
}

/// The publication date in words of a time in milliseconds since the Unix
/// epoch, where the calendar reaches it.
pub open spec fn human_date(millis: i64) -> Option<Seq<char>> {
    match utc_calendar_date(whole_seconds(millis)) {
        Some((year, month, day)) => Some(date_text(year, month, day)),
        None => None,
    }
}

/// Writes a calendar date in words, such as `15 March 2023`.
pub fn date_in_words(year: i32, month: u32, day: u32) -> (s: String)
    requires
        1 <= month <= 12,
    ensures
        s@ == date_text(year, month, day),
{
    let mut s = decimal_string(day as i64);
    push_char(&mut s, ' ');
    match month_name(month as u8) {
        Some(name) => {
            s.append(name.as_str());
        },
        None => {
            assert(false);
        },
    }
    push_char(&mut s, ' ');
    let year_text = decimal_string(year as i64);
    s.append(year_text.as_str());
    s
}

/// The date in words of a time given in milliseconds since the Unix epoch,
/// or `None` where the calendar does not reach that time.
pub fn human_readable_date(date: i64) -> (r: Option<String>)
    ensures
        opt_text(r) == human_date(date),
{
    match utc_date(date / 1000) {
        Some(_) => Some(to_human_readable_date(date)),
        None => None,
    }
}

/// The date in words of a time given in milliseconds since the Unix epoch.
pub fn to_human_readable_date(date: i64) -> (s: String)
    requires
        human_date(date) is Some,
    ensures
        Some(s@) == human_date(date),
{
    let secs = date / 1000;
    match utc_date(secs) {
        Some((year, month, day)) => date_in_words(year, month, day),
        None => {
            assert(false);
            String::new()
        },
    }
}

/// The characters of a string.
pub fn chars_of(text: &str) -> (chars: Vec<char>)
    ensures
        chars@ == text@,
{
    broadcast use vstd::string::group_string_axioms;

    let mut chars: Vec<char> = Vec::new();
    for c in walk: text.chars()
        invariant
            walk.seq() == spec_iter(text).remaining(),
            chars@ == walk.seq().take(walk.index()),
    {
        let ghost before = chars@;
        chars.push(c);
        assert(chars@ =~= walk.seq().take(walk.index() + 1));
    }
    assert(chars@ =~= text@);
    chars
}

/// The string made of the given characters.
pub fn string_of(chars: &Vec<char>) -> (text: String)
    ensures
        text@ == chars@,
{
    let mut text = String::new();
    let mut i: usize = 0;
    while i < chars.len()
        invariant
            i <= chars.len(),
            text@ == chars@.take(i as int),
        decreases chars.len() - i,
    {
        push_char(&mut text, chars[i]);
        assert(text@ =~= chars@.take(i + 1));
        i = i + 1;
    }
    assert(chars@.take(chars.len() as int) =~= chars@);
    text
}

/// Whether `text` begins with `prefix`.
pub open spec fn begins_with(text: Seq<char>, prefix: Seq<char>) -> bool {
    prefix.len() <= text.len() && text.subrange(0, prefix.len() as int) == prefix
}

/// Whether `text` ends with `suffix`.
pub open spec fn finishes_with(text: Seq<char>, suffix: Seq<char>) -> bool {
    suffix.len() <= text.len() && text.subrange(text.len() - suffix.len(), text.len() as int)
        == suffix
}

/// Whether `pattern` stands in `text` at position `at`.
pub open spec fn occurs_at(text: Seq<char>, pattern: Seq<char>, at: int) -> bool {
    0 <= at && at + pattern.len() <= text.len() && text.subrange(at, at + pattern.len())
        == pattern
}

/// Tests whether `pattern` stands in `text` at position `at`.
pub fn matches_at(text: &Vec<char>, pattern: &Vec<char>, at: usize) -> (r: bool)
    ensures
        r == occurs_at(text@, pattern@, at as int),
{
    if at > text.len() || pattern.len() > text.len() - at {
        return false;
    }
    let mut k: usize = 0;
    while k < pattern.len()
        invariant
            k <= pattern.len(),
            at + pattern.len() <= text.len(),
            text@.subrange(at as int, at + k) == pattern@.take(k as int),
        decreases pattern.len() - k,
    {
        if text[at + k] != pattern[k] {
            assert(text@.subrange(at as int, at + pattern.len())[k as int] != pattern@[k as int]);
            return false;
        }
        assert(text@.subrange(at as int, at + k + 1) =~= pattern@.take(k + 1));
        k = k + 1;
    }
    assert(pattern@.take(pattern.len() as int) =~= pattern@);
    true
}

/// Tests whether `text` begins with `prefix`.
pub fn starts_with(text: &Vec<char>, prefix: &Vec<char>) -> (r: bool)
    ensures
        r == begins_with(text@, prefix@),
{
    matches_at(text, prefix, 0)
}

/// Tests whether `text` ends with `suffix`.
pub fn ends_with(text: &Vec<char>, suffix: &Vec<char>) -> (r: bool)
    ensures
        r == finishes_with(text@, suffix@),
{
    if suffix.len() > text.len() {
        return false;
    }
    matches_at(text, suffix, text.len() - suffix.len())
}

/// What is left of `text` when every occurrence of `pattern` is taken out,
/// reading from the left and never counting a character for two occurrences.
/// An empty pattern takes nothing out.
pub open spec fn without(text: Seq<char>, pattern: Seq<char>) -> Seq<char>
    decreases text.len(),
{
    if pattern.len() == 0 || text.len() < pattern.len() {
        text
    } else if occurs_at(text, pattern, 0) {
        without(text.skip(pattern.len() as int), pattern)
    } else {
        seq![text[0]] + without(text.skip(1), pattern)
    }
}

/// Takes every occurrence of `pattern` out of `text`.
pub fn remove_all(text: &Vec<char>, pattern: &Vec<char>) -> (rest: Vec<char>)
    ensures
        rest@ == without(text@, pattern@),
{
    let mut rest: Vec<char> = Vec::new();
    let mut i: usize = 0;
    if pattern.len() == 0 {
        while i < text.len()
            invariant
                i <= text.len(),
                rest@ == text@.take(i as int),
            decreases text.len() - i,
        {
            rest.push(text[i]);
            assert(rest@ =~= text@.take(i + 1));
            i = i + 1;
        }
        assert(text@.take(text.len() as int) =~= text@);
        return rest;
    }
    assert(text@.skip(0) =~= text@);
    while i < text.len()
        invariant
            i <= text.len(),
            pattern.len() > 0,
            without(text@, pattern@) == rest@ + without(text@.skip(i as int), pattern@),
        decreases text.len() - i,
    {
        let ghost tail = text@.skip(i as int);
        if matches_at(text, pattern, i) {
            assert(text@.subrange(i as int, i + pattern.len()) =~= tail.subrange(
                0,
                pattern.len() as int,
            ));
            assert(tail.skip(pattern.len() as int) =~= text@.skip(i + pattern.len()));
            i = i + pattern.len();
        } else {
            proof {
                assert(tail.skip(1) =~= text@.skip(i + 1));
                if tail.len() >= pattern.len() {
                    assert(text@.subrange(i as int, i + pattern.len()) =~= tail.subrange(
                        0,
                        pattern.len() as int,
                    ));
                } else {
                    assert(without(tail.skip(1), pattern@) == tail.skip(1));
                    assert(tail =~= seq![tail[0]] + tail.skip(1));
                }
                assert(without(tail, pattern@) == seq![tail[0]] + without(tail.skip(1), pattern@));
            }
            let ghost before = rest@;
            rest.push(text[i]);
            assert(rest@ + without(text@.skip(i + 1), pattern@) =~= before + (seq![tail[0]]
                + without(tail.skip(1), pattern@)));
            i = i + 1;
        }
    }
    assert(text@.skip(text.len() as int) =~= Seq::<char>::empty());
    assert(without(Seq::<char>::empty(), pattern@) =~= Seq::<char>::empty());
    assert(rest@ + Seq::<char>::empty() =~= rest@);
    rest
}

/// Whether a character is one of the decimal digits `0` to `9`.
pub open spec fn is_digit(c: char) -> bool {
    '0' <= c <= '9'
}

/// The number that a run of decimal digits writes; 0 for the empty run.
pub open spec fn digits_value(digits: Seq<char>) -> int
    decreases digits.len(),
{
    if digits.len() == 0 {
        0
    } else {
        digits_value(digits.drop_last()) * 10 + (digits.last() as int - '0' as int)
    }
}

/// The integer that `text` writes in decimal: an optional sign, `+` or `-`,
/// followed by one or more digits and nothing else.
pub open spec fn decimal_value(text: Seq<char>) -> Option<int> {
    if text.len() == 0 {
        None
    } else {
        let digits = if text[0] == '-' || text[0] == '+' {
            text.skip(1)
        } else {
            text
        };
        if digits.len() == 0 || exists|i: int| 0 <= i < digits.len() && !is_digit(#[trigger] digits[i]) {
            None
        } else if text[0] == '-' {
            Some(-digits_value(digits))
        } else {
            Some(digits_value(digits))
        }
    }
}

/// The 64-bit integer that `text` writes in decimal, if it writes one that
/// fits.
pub open spec fn parsed_i64(text: Seq<char>) -> Option<i64> {
    match decimal_value(text) {
        Some(value) => if i64::MIN <= value <= i64::MAX {
            Some(value as i64)
        } else {
            None
        },
        None => None,
    }
}

/// The words in which the standard library says why `text` is no 64-bit
/// integer.
pub uninterp spec fn integer_error_text(text: Seq<char>) -> Seq<char>;

/// Reads a decimal integer.
///
/// Trusted: calls `str::parse::<i64>` of the standard library. It is
/// documented to accept an optional `+` or `-` sign followed by decimal
/// digits only, at least one, and to fail on anything else, whitespace
/// included, and on a number that does not fit in 64 bits. Where it fails,
/// the error's `to_string` is handed out; that text depends on `text` alone
/// and is known here only by name.
#[verifier::external_body]
pub(crate) fn parse_integer(text: &str) -> (r: Result<i64, String>)
    ensures
        match r {
            Ok(n) => parsed_i64(text@) == Some(n),
            Err(reason) => parsed_i64(text@) is None && reason@ == integer_error_text(text@),
        },
{
    text.parse::<i64>().map_err(|e| e.to_string())
}

/// The number of a crossword within its series, read from decimal text, or
/// `None` where the text is no 64-bit integer.
pub fn series_number(text: &str) -> (r: Option<i64>)
    ensures
        r == parsed_i64(text@),
{
    match parse_integer(text) {
        Ok(n) => Some(n),
        Err(_) => None,
    }
}

} // verus!
