//! Battery status from the text of the host's power report.
//!
//! The report is the output of the host's power tool, given as bytes. The
//! status is read from the first line that names an internal battery and
//! carries a percentage. Where there is no report, or none can be read from
//! it, the status is the documented default: full and not charging.
//!
//! A percentage is a whitespace-separated word of decimal digits followed by
//! `%` or `%;`. Whitespace is ASCII whitespace; lines end at a line feed.

use vstd::prelude::*;
use crate::sample::{saturate_i64, Sample, MICROS_PER_UNIT};
use crate::view_model::BatteryReading;

verus! {

/// The line feed.
pub const NEWLINE: u8 = 10;

/// The percent sign.
pub const PERCENT: u8 = 37;

/// The semicolon.
pub const SEMICOLON: u8 = 59;

/// The digit zero.
pub const DIGIT_ZERO: u8 = 48;

/// The digit nine.
pub const DIGIT_NINE: u8 = 57;

/// Whole percents up to which the digits of a word are added up; beyond it
/// the stored value no longer grows.
pub const WHOLE_LIMIT: u64 = 10_000_000_000_000;

/// The most whole percents whose millionths a sample can hold.
pub const LARGEST_WHOLE: u64 = 9_223_372_036_854;

/// Percent above which a battery is well charged.
pub const HIGH_CHARGE_PERCENT: i64 = 50;

/// Percent above which a battery is not yet running low.
pub const LOW_CHARGE_PERCENT: i64 = 20;

/// How well a battery is charged, for a display that warns by colour.
#[derive(Clone, Copy, Debug, PartialEq, Eq, Structural)]
pub enum ChargeLevel {
    /// More than half.
    High,
    /// More than a fifth, at most half.
    Medium,
    /// At most a fifth.
    Low,
}

/// The level of a charge of `percent`.
pub open spec fn spec_charge_level(percent: Sample) -> ChargeLevel {
    if percent.micros > HIGH_CHARGE_PERCENT * MICROS_PER_UNIT {
        ChargeLevel::High
    } else if percent.micros > LOW_CHARGE_PERCENT * MICROS_PER_UNIT {
        ChargeLevel::Medium
    } else {
        ChargeLevel::Low
    }
}

/// `InternalBattery`
pub open spec fn word_internal_battery() -> Seq<u8> {
    seq![73u8, 110, 116, 101, 114, 110, 97, 108, 66, 97, 116, 116, 101, 114, 121]
}

/// `charging`
pub open spec fn word_charging() -> Seq<u8> {
    seq![99u8, 104, 97, 114, 103, 105, 110, 103]
}

/// `discharging`
pub open spec fn word_discharging() -> Seq<u8> {
    seq![100u8, 105, 115, 99, 104, 97, 114, 103, 105, 110, 103]
}

/// `AC Power`
pub open spec fn word_ac_power() -> Seq<u8> {
    seq![65u8, 67, 32, 80, 111, 119, 101, 114]
}

/// `%`
pub open spec fn word_percent() -> Seq<u8> {
    seq![PERCENT]
}

/// The status reported where the host has no battery to ask, or the report
/// cannot be read: full, not charging.
pub open spec fn spec_fallback() -> BatteryReading {
    BatteryReading { percent: Sample { micros: 100_000_000 }, charging: false }
}

/// Space, tab, line feed, vertical tab, form feed, carriage return.
pub open spec fn is_space(byte: u8) -> bool {
    byte == 32 || (9 <= byte && byte <= 13)
}

/// A decimal digit.
pub open spec fn is_digit(byte: u8) -> bool {
    DIGIT_ZERO <= byte && byte <= DIGIT_NINE
}

/// Whether `word` stands in `text` at position `at`.
pub open spec fn occurs_at(text: Seq<u8>, word: Seq<u8>, at: int) -> bool {
    0 <= at && at + word.len() <= text.len() && text.subrange(at, at + word.len()) == word
}

/// Whether `word` stands anywhere in `text`.
pub open spec fn contains_word(text: Seq<u8>, word: Seq<u8>) -> bool {
    exists|at: int| occurs_at(text, word, at)
}

/// `token` without the run of `byte` at its end.
pub open spec fn trim_end(token: Seq<u8>, byte: u8) -> Seq<u8>
    decreases token.len(),
{
    if token.len() > 0 && token.last() == byte {
        trim_end(token.drop_last(), byte)
    } else {
        token
    }
}

/// Whether `token` ends in `%` or in `%;`.
pub open spec fn marks_percent(token: Seq<u8>) -> bool {
    ||| (token.len() >= 1 && token[token.len() - 1] == PERCENT)
    ||| (token.len() >= 2 && token[token.len() - 2] == PERCENT && token[token.len() - 1]
        == SEMICOLON)
}

/// Whether every byte of `digits` is a decimal digit.
pub open spec fn all_digits(digits: Seq<u8>) -> bool {
    forall|i: int| 0 <= i < digits.len() ==> is_digit(#[trigger] digits[i])
}

/// The number that the decimal digits spell.
pub open spec fn digits_value(digits: Seq<u8>) -> nat
    decreases digits.len(),
{
    if digits.len() == 0 {
        0
    } else {
        digits_value(digits.drop_last()) * 10 + (digits.last() - DIGIT_ZERO) as nat
    }
}

/// The percentage that `token` spells, if it spells one: it ends in `%` or
/// `%;`, and what is left without the semicolons and then the percent signs
/// at its end is one or more digits.
pub open spec fn percent_of_token(token: Seq<u8>) -> Option<Sample> {
    let digits = trim_end(trim_end(token, SEMICOLON), PERCENT);
    if marks_percent(token) && digits.len() > 0 && all_digits(digits) {
        Some(Sample { micros: saturate_i64(digits_value(digits) * MICROS_PER_UNIT as int) as i64 })
    } else {
        None
    }
}

/// The end of the word that holds position `start`: the next whitespace, or
/// the end of the line.
pub open spec fn token_end(line: Seq<u8>, start: int) -> int
    decreases line.len() - start,
{
    if start < 0 || start >= line.len() || is_space(line[start]) {
        start
    } else {
        token_end(line, start + 1)
    }
}

/// Whether a word begins at position `at` of `line`.
pub open spec fn token_starts_at(line: Seq<u8>, at: int) -> bool {
    0 <= at < line.len() && !is_space(line[at]) && (at == 0 || is_space(line[at - 1]))
}

/// The percentage of the first word, from position `start` on, that spells
/// one.
pub open spec fn percent_of_line(line: Seq<u8>, start: int) -> Option<Sample>
    decreases line.len() - start,
{
    if start < 0 || start >= line.len() {
        None
    } else if token_starts_at(line, start) && percent_of_token(
        line.subrange(start, token_end(line, start)),
    ) is Some {
        percent_of_token(line.subrange(start, token_end(line, start)))
    } else {
        percent_of_line(line, start + 1)
    }
}

/// The status that `line` reports, if it is the line of an internal battery
/// with a percentage. The battery counts as charging where the line says so
/// and does not say `discharging`, or where the host is `on_ac`.
pub open spec fn status_of_line(line: Seq<u8>, on_ac: bool) -> Option<BatteryReading> {
    if contains_word(line, word_internal_battery()) && contains_word(line, word_percent()) {
        match percent_of_line(line, 0) {
            Some(percent) => Some(
                BatteryReading {
                    percent,
                    charging: (contains_word(line, word_charging()) && !contains_word(
                        line,
                        word_discharging(),
                    )) || on_ac,
                },
            ),
            None => None,
        }
    } else {
        None
    }
}

/// The end of the line that holds position `start`: the next line feed, or
/// the end of the text.
pub open spec fn line_end(text: Seq<u8>, start: int) -> int
    decreases text.len() - start,
{
    if start < 0 || start >= text.len() || text[start] == NEWLINE {
        start
    } else {
        line_end(text, start + 1)
    }
}

/// Whether a line begins at position `at` of `text`.
pub open spec fn line_starts_at(text: Seq<u8>, at: int) -> bool {
    0 <= at < text.len() && (at == 0 || text[at - 1] == NEWLINE)
}

/// The status of the first line, from position `start` on, that reports
/// one.
pub open spec fn status_from(text: Seq<u8>, start: int, on_ac: bool) -> Option<BatteryReading>
    decreases text.len() - start,
{
    if start < 0 || start >= text.len() {
        None
    } else if line_starts_at(text, start) && status_of_line(
        text.subrange(start, line_end(text, start)),
        on_ac,
    ) is Some {
        status_of_line(text.subrange(start, line_end(text, start)), on_ac)
    } else {
        status_from(text, start + 1, on_ac)
    }
}

/// The status that a power report gives. The host is on mains power where
/// the report says `AC Power` anywhere.
pub open spec fn spec_parse_report(text: Seq<u8>) -> Option<BatteryReading> {
    status_from(text, 0, contains_word(text, word_ac_power()))
}

/// The status for a report that may be missing or unreadable.
pub open spec fn spec_battery_info(report: Option<Seq<u8>>) -> BatteryReading {
    match report {
        Some(text) => match spec_parse_report(text) {
            Some(status) => status,
            None => spec_fallback(),
        },
        None => spec_fallback(),
    }
}

/// The default status: full, not charging.
pub fn fallback() -> (status: BatteryReading)
    ensures
        status == spec_fallback(),
{
    BatteryReading { percent: Sample { micros: 100_000_000 }, charging: false }
}

/// The level of a charge of `percent`.
pub fn charge_level(percent: Sample) -> (level: ChargeLevel)
    ensures
        level == spec_charge_level(percent),
{
    if percent.micros > HIGH_CHARGE_PERCENT * MICROS_PER_UNIT {
        ChargeLevel::High
    } else if percent.micros > LOW_CHARGE_PERCENT * MICROS_PER_UNIT {
        ChargeLevel::Medium
    } else {
        ChargeLevel::Low
    }
}

/// Whether `byte` is ASCII whitespace.
fn is_space_byte(byte: u8) -> (space: bool)
    ensures
        space == is_space(byte),
{
    byte == 32 || (9 <= byte && byte <= 13)
}

/// Whether `word` stands in `text` at position `at`.
fn matches_at(text: &[u8], word: &[u8], at: usize) -> (found: bool)
    requires
        at + word@.len() <= text@.len(),
    ensures
        found == occurs_at(text@, word@, at as int),
{
    let length: usize = text.len();
    let mut offset: usize = 0;
    while offset < word.len()
        invariant
            offset <= word@.len(),
            at + word@.len() <= text@.len(),
            length == text@.len(),
            forall|k: int| 0 <= k < offset ==> text@[at + k] == word@[k],
        decreases word@.len() - offset,
    {
        if text[at + offset] != word[offset] {
            assert(text@.subrange(at as int, at + word@.len())[offset as int] != word@[offset as int]);
            return false;
        }
        offset += 1;
    }
    assert(text@.subrange(at as int, at + word@.len()) =~= word@);
    true
}

/// Whether `word` stands anywhere in `text`.
pub fn contains(text: &[u8], word: &[u8]) -> (found: bool)
    ensures
        found == contains_word(text@, word@),
{
    if word.len() == 0 {
        assert(occurs_at(text@, word@, 0)) by {
            assert(text@.subrange(0, 0) =~= word@);
        }
        return true;
    }
    if word.len() > text.len() {
        return false;
    }
    let length: usize = text.len();
    let last: usize = length - word.len();
    let mut at: usize = 0;
    while at <= last
        invariant
            at <= last + 1,
            last == text@.len() - word@.len(),
            length == text@.len(),
            last < length,
            forall|k: int| 0 <= k < at ==> !occurs_at(text@, word@, k),
        decreases last + 1 - at,
    {
        if matches_at(text, word, at) {
            return true;
        }
        at += 1;
    }
    false
}

/// The length of the first `len` bytes of `token` without the run of `byte`
/// at their end.
fn trimmed_len(token: &[u8], len: usize, byte: u8) -> (end: usize)
    requires
        len <= token@.len(),
    ensures
        end <= len,
        token@.subrange(0, end as int) == trim_end(token@.subrange(0, len as int), byte),
{
    let mut end: usize = len;
    while end > 0 && token[end - 1] == byte
        invariant
            end <= len <= token@.len(),
            trim_end(token@.subrange(0, end as int), byte) == trim_end(
                token@.subrange(0, len as int),
                byte,
            ),
        decreases end,
    {
        assert(token@.subrange(0, end as int).drop_last() =~= token@.subrange(0, end - 1));
        end -= 1;
    }
    end
}

/// The percentage that `token` spells, if it spells one.
pub fn parse_percent_token(token: &[u8]) -> (percent: Option<Sample>)
    ensures
        percent == percent_of_token(token@),
{
    let len: usize = token.len();
    let marked = (len >= 1 && token[len - 1] == PERCENT) || (len >= 2 && token[len - 2] == PERCENT
        && token[len - 1] == SEMICOLON);
    if !marked {
        return None;
    }
    assert(token@.subrange(0, len as int) =~= token@);
    let without_semicolons: usize = trimmed_len(token, len, SEMICOLON);
    let end: usize = trimmed_len(token, without_semicolons, PERCENT);
    let ghost digits = token@.subrange(0, end as int);
    if end == 0 {
        return None;
    }
    let mut whole: u64 = 0;
    let mut index: usize = 0;
    while index < end
        invariant
            index <= end <= token@.len(),
            0 < end,
            digits == token@.subrange(0, end as int),
            digits == trim_end(trim_end(token@, SEMICOLON), PERCENT),
            marks_percent(token@),
            all_digits(digits.subrange(0, index as int)),
            whole <= WHOLE_LIMIT,
            whole == if digits_value(digits.subrange(0, index as int)) < WHOLE_LIMIT {
                digits_value(digits.subrange(0, index as int))
            } else {
                WHOLE_LIMIT as nat
            },
        decreases end - index,
    {
        let byte: u8 = token[index];
        if byte < DIGIT_ZERO || byte > DIGIT_NINE {
            assert(!is_digit(digits[index as int]));
            return None;
        }
        assert(digits.subrange(0, index + 1).drop_last() =~= digits.subrange(0, index as int));
        assert forall|i: int| 0 <= i < index + 1 implies is_digit(
            #[trigger] digits.subrange(0, index + 1)[i],
        ) by {
            if i < index {
                assert(digits.subrange(0, index as int)[i] == digits[i]);
            }
        }
        let digit: u64 = (byte - DIGIT_ZERO) as u64;
        let next: u64 = whole * 10 + digit;
        whole = if next > WHOLE_LIMIT {
            WHOLE_LIMIT
        } else {
            next
        };
        index += 1;
    }
    assert(digits.subrange(0, index as int) =~= digits);
    if whole > LARGEST_WHOLE {
        Some(Sample { micros: i64::MAX })
    } else {
        Some(Sample { micros: (whole as i64) * MICROS_PER_UNIT })
    }
}

/// The end of the word that holds position `start`.
fn token_end_from(line: &[u8], start: usize) -> (end: usize)
    requires
        start <= line@.len(),
    ensures
        end == token_end(line@, start as int),
        start <= end <= line@.len(),
{
    let mut end: usize = start;
    while end < line.len() && !is_space_byte(line[end])
        invariant
            start <= end <= line@.len(),
            token_end(line@, end as int) == token_end(line@, start as int),
        decreases line@.len() - end,
    {
        end += 1;
    }
    end
}

/// The percentage of the first word of `line` that spells one.
pub fn scan_line(line: &[u8]) -> (percent: Option<Sample>)
    ensures
        percent == percent_of_line(line@, 0),
{
    let mut at: usize = 0;
    while at < line.len()
        invariant
            at <= line@.len(),
            percent_of_line(line@, at as int) == percent_of_line(line@, 0),
        decreases line@.len() - at,
    {
        let starts = !is_space_byte(line[at]) && (at == 0 || is_space_byte(line[at - 1]));
        if starts {
            let end: usize = token_end_from(line, at);
            let found = parse_percent_token(&line[at..end]);
            if found.is_some() {
                return found;
            }
        }
        at += 1;
    }
    None
}

/// The status that `line` reports, if it is the line of an internal battery
/// with a percentage.
pub fn parse_line(line: &[u8], on_ac: bool) -> (status: Option<BatteryReading>)
    ensures
        status == status_of_line(line@, on_ac),
{
    let internal_battery: [u8; 15] = [
        73,
        110,
        116,
        101,
        114,
        110,
        97,
        108,
        66,
        97,
        116,
        116,
        101,
        114,
        121,
    ];
    let percent_sign: [u8; 1] = [PERCENT];
    let charging_word: [u8; 8] = [99, 104, 97, 114, 103, 105, 110, 103];
    let discharging_word: [u8; 11] = [100, 105, 115, 99, 104, 97, 114, 103, 105, 110, 103];
    assert(internal_battery@ =~= word_internal_battery());
    assert(percent_sign@ =~= word_percent());
    assert(charging_word@ =~= word_charging());
    assert(discharging_word@ =~= word_discharging());
    if !contains(line, internal_battery.as_slice()) {
        return None;
    }
    if !contains(line, percent_sign.as_slice()) {
        return None;
    }
    match scan_line(line) {
        Some(percent) => {
            let says_charging = contains(line, charging_word.as_slice()) && !contains(
                line,
                discharging_word.as_slice(),
            );
            Some(BatteryReading { percent, charging: says_charging || on_ac })
        },
        None => None,
    }
}

/// The end of the line that holds position `start`.
fn line_end_from(text: &[u8], start: usize) -> (end: usize)
    requires
        start <= text@.len(),
    ensures
        end == line_end(text@, start as int),
        start <= end <= text@.len(),
{
    let mut end: usize = start;
    while end < text.len() && text[end] != NEWLINE
        invariant
            start <= end <= text@.len(),
            line_end(text@, end as int) == line_end(text@, start as int),
        decreases text@.len() - end,
    {
        end += 1;
    }
    end
}

/// The status that a power report gives, if it gives one.
pub fn parse_report(text: &[u8]) -> (status: Option<BatteryReading>)
    ensures
        status == spec_parse_report(text@),
{
    let ac_power: [u8; 8] = [65, 67, 32, 80, 111, 119, 101, 114];
    assert(ac_power@ =~= word_ac_power());
    let on_ac = contains(text, ac_power.as_slice());
    let mut at: usize = 0;
    while at < text.len()
        invariant
            at <= text@.len(),
            on_ac == contains_word(text@, word_ac_power()),
            status_from(text@, at as int, on_ac) == status_from(text@, 0, on_ac),
        decreases text@.len() - at,
    {
        if at == 0 || text[at - 1] == NEWLINE {
            let end: usize = line_end_from(text, at);
            let found = parse_line(&text[at..end], on_ac);
            if found.is_some() {
                return found;
            }
        }
        at += 1;
    }
    None
}

/// The battery status for a power report. `None` stands for a host that has
/// no report to give; it and every report from which no status can be read
/// give the default of a full battery that is not charging.
pub fn get_battery_info(report: Option<&[u8]>) -> (status: BatteryReading)
    ensures
        status == spec_battery_info(
            match report {
                Some(text) => Some(text@),
                None => None,
            },
        ),
{
    match report {
        Some(text) => match parse_report(text) {
            Some(status) => status,
            None => fallback(),
        },
        None => fallback(),
    }
}

/// A line ends at or after the position it is asked from, within the text.
pub proof fn lemma_line_end_bounds(text: Seq<u8>, start: int)
    requires
        0 <= start <= text.len(),
    ensures
        start <= line_end(text, start) <= text.len(),
        forall|k: int| start <= k < line_end(text, start) ==> text[k] != NEWLINE,
    decreases text.len() - start,
{
    if start < text.len() && text[start] != NEWLINE {
        lemma_line_end_bounds(text, start + 1);
    }
}

/// A word that stands in a part of a text stands in the text.
pub proof fn lemma_word_of_part(text: Seq<u8>, from: int, to: int, word: Seq<u8>)
    requires
        0 <= from <= to <= text.len(),
        contains_word(text.subrange(from, to), word),
    ensures
        contains_word(text, word),
{
    let part = text.subrange(from, to);
    let at = choose|at: int| occurs_at(part, word, at);
    assert(text.subrange(from + at, from + at + word.len()) =~= part.subrange(
        at,
        at + word.len(),
    ));
    assert(occurs_at(text, word, from + at));
}

/// From no position on does a text that nowhere names an internal battery
/// give a status.
pub proof fn lemma_no_battery_no_status(text: Seq<u8>, start: int, on_ac: bool)
    requires
        !contains_word(text, word_internal_battery()),
        0 <= start,
    ensures
        status_from(text, start, on_ac) is None,
    decreases text.len() - start,
{
    if start < text.len() {
        lemma_line_end_bounds(text, start);
        let end = line_end(text, start);
        if contains_word(text.subrange(start, end), word_internal_battery()) {
            lemma_word_of_part(text, start, end, word_internal_battery());
        }
        lemma_no_battery_no_status(text, start + 1, on_ac);
    }
}

/// A report that nowhere names an internal battery, like a missing report,
/// gives the default status.
pub proof fn lemma_default_without_battery(text: Seq<u8>)
    requires
        !contains_word(text, word_internal_battery()),
    ensures
        spec_parse_report(text) is None,
        spec_battery_info(Some(text)) == spec_fallback(),
        spec_battery_info(None) == spec_fallback(),
{
    lemma_no_battery_no_status(text, 0, contains_word(text, word_ac_power()));
}

/// A status that is read from a report has a percentage that is not
/// negative, and counts as charging wherever the report names mains power.
pub proof fn lemma_status_of_report(text: Seq<u8>, start: int)
    requires
        0 <= start,
    ensures
        status_from(text, start, contains_word(text, word_ac_power())) matches Some(status) ==> {
            &&& status.percent.micros >= 0
            &&& contains_word(text, word_ac_power()) ==> status.charging
        },
    decreases text.len() - start,
{
    if start < text.len() {
        lemma_status_of_report(text, start + 1);
        let line = text.subrange(start, line_end(text, start));
        lemma_percent_of_line_nonnegative(line, 0);
    }
}

/// A percentage that is read from a line is not negative.
pub proof fn lemma_percent_of_line_nonnegative(line: Seq<u8>, start: int)
    requires
        0 <= start,
    ensures
        percent_of_line(line, start) matches Some(percent) ==> percent.micros >= 0,
    decreases line.len() - start,
{
    if start < line.len() {
        lemma_percent_of_line_nonnegative(line, start + 1);
    }
}

} // verus!
