//! The time that is left until a timestamp and its compact rendering, and
//! what a line typed at a prompt means.

use crate::profile::{DateTime, NANOS_PER_SECOND, option_text};
use crate::text::{
    decimal, decimal_string, is_part, join, lemma_join_holds_last, lowercased, to_lowercase,
    trim, trimmed,
};
use vstd::prelude::*;

verus! {

/// One component of a duration: the count and then its unit letter.
pub open spec fn component(count: nat, unit: char) -> Seq<char> {
    decimal(count).push(unit)
}

/// `component(count, unit)` if `count` is not zero, nothing otherwise.
pub open spec fn nonzero_component(count: nat, unit: char) -> Seq<Seq<char>> {
    if count > 0 {
        seq![component(count, unit)]
    } else {
        Seq::empty()
    }
}

/// The hours, minutes and seconds of `secs` that are not zero, largest unit
/// first.
pub open spec fn duration_components(secs: nat) -> Seq<Seq<char>> {
    nonzero_component(secs / 3600, 'h') + nonzero_component(secs % 3600 / 60, 'm')
        + nonzero_component(secs % 60, 's')
}

/// The compact text of a duration of `secs` whole seconds: its non-zero
/// components separated by single spaces. Zero seconds give the empty text.
pub open spec fn duration_text(secs: nat) -> Seq<char> {
    join(duration_components(secs), seq![' '])
}

/// Appends one more component to a text that holds the joined `parts`.
fn append_component(
    text: &mut String,
    Ghost(parts): Ghost<Seq<Seq<char>>>,
    first: bool,
    count: u64,
    unit: &str,
)
    requires
        old(text)@ == join(parts, seq![' ']),
        first == (parts.len() == 0),
        unit@.len() == 1,
    ensures
        final(text)@ == join(parts.push(component(count as nat, unit@[0])), seq![' ']),
{
    let ghost added = parts.push(component(count as nat, unit@[0]));
    if !first {
        text.append(" ");
    }
    let number = decimal_string(count);
    text.append(number.as_str());
    text.append(unit);
    proof {
        reveal_strlit(" ");
        assert(" "@ =~= seq![' ']);
        assert(unit@ =~= seq![unit@[0]]);
        assert(added.drop_last() =~= parts);
        if parts.len() == 0 {
            assert(join(parts, seq![' ']) =~= Seq::<char>::empty());
        }
        assert(final(text)@ =~= join(added, seq![' ']));
    }
}

/// Renders a duration of `secs` whole seconds as hours, minutes and seconds,
/// leaving out every component that is zero.
pub fn format_duration(secs: u64) -> (text: String)
    ensures
        text@ == duration_text(secs as nat),
{
    let hours: u64 = secs / 3600;
    let minutes: u64 = (secs % 3600) / 60;
    let seconds: u64 = secs % 60;
    let mut text = String::new();
    let mut first = true;
    let ghost mut parts: Seq<Seq<char>> = Seq::empty();
    proof {
        reveal_strlit("h");
        reveal_strlit("m");
        reveal_strlit("s");
    }
    if hours > 0 {
        append_component(&mut text, Ghost(parts), first, hours, "h");
        first = false;
        proof {
            parts = parts.push(component(hours as nat, 'h'));
        }
    }
    assert(parts =~= nonzero_component(hours as nat, 'h'));
    if minutes > 0 {
        append_component(&mut text, Ghost(parts), first, minutes, "m");
        first = false;
        proof {
            parts = parts.push(component(minutes as nat, 'm'));
        }
    }
    assert(parts =~= nonzero_component(hours as nat, 'h') + nonzero_component(minutes as nat, 'm'));
    if seconds > 0 {
        append_component(&mut text, Ghost(parts), first, seconds, "s");
        first = false;
        proof {
            parts = parts.push(component(seconds as nat, 's'));
        }
    }
    assert(parts =~= duration_components(secs as nat));
    text
}

/// The whole seconds from `now` until `time`, or none where `time` lies
/// before `now`. A part of a second is rounded down.
pub open spec fn remaining_seconds(time: DateTime, now: DateTime) -> Option<nat> {
    if time.as_nanos() >= now.as_nanos() {
        Some(((time.as_nanos() - now.as_nanos()) / (NANOS_PER_SECOND as int)) as nat)
    } else {
        None
    }
}

/// The compact text of the time from `now` until `time`, or none where
/// `time` lies before `now`.
pub open spec fn remaining_text(time: DateTime, now: DateTime) -> Option<Seq<char>> {
    match remaining_seconds(time, now) {
        Some(secs) => Some(duration_text(secs)),
        None => None,
    }
}

/// The time that is left at `now` until `time`, as a compact text; none
/// where `time` has passed.
pub fn remaining_at(time: DateTime, now: DateTime) -> (left: Option<String>)
    requires
        time.wf(),
        now.wf(),
    ensures
        option_text(left) == remaining_text(time, now),
{
    let until: i128 = (time.seconds as i128) * 1_000_000_000 + (time.subsecond_nanos as i128);
    let current: i128 = (now.seconds as i128) * 1_000_000_000 + (now.subsecond_nanos as i128);
    if until < current {
        None
    } else {
        let secs: i128 = (until - current) / 1_000_000_000;
        Some(format_duration(secs as u64))
    }
}

/// A duration of at least one second has a text that is not empty; of no
/// second, the empty text.
pub proof fn lemma_duration_text_empty(secs: nat)
    ensures
        duration_text(secs).len() == 0 <==> secs == 0,
{
    let parts = duration_components(secs);
    if secs == 0 {
        assert(parts =~= Seq::empty());
    } else {
        assert(secs / 3600 > 0 || secs % 3600 / 60 > 0 || secs % 60 > 0);
        assert(parts.len() > 0);
        assert(parts.last().len() > 0);
        lemma_join_holds_last(parts, seq![' ']);
    }
}

/// A timestamp that has passed gives no remaining time; one that lies a
/// second or more ahead gives a text that is not empty; one that lies less
/// than a second ahead gives the empty text.
pub proof fn lemma_remaining_text(time: DateTime, now: DateTime)
    ensures
        time.as_nanos() < now.as_nanos() <==> remaining_text(time, now) is None,
        time.as_nanos() >= now.as_nanos() + NANOS_PER_SECOND ==> remaining_text(time, now) is Some
            && remaining_text(time, now)->0.len() > 0,
        now.as_nanos() <= time.as_nanos() < now.as_nanos() + NANOS_PER_SECOND ==> remaining_text(
            time,
            now,
        ) == Some(Seq::<char>::empty()),
{
    if time.as_nanos() >= now.as_nanos() {
        let secs = remaining_seconds(time, now)->0;
        lemma_duration_text_empty(secs);
    }
}

/// `SystemTime::now`, counted from the Unix epoch as
/// `aws_smithy_types::DateTime` converts it. Of the instant only the bound on
/// its nanoseconds is known.
#[verifier::external_body]
pub(crate) fn now() -> (now: DateTime)
    ensures
        now.wf(),
{
    let now = aws_smithy_types::DateTime::from(std::time::SystemTime::now());
    DateTime { seconds: now.secs(), subsecond_nanos: now.subsec_nanos() }
}

/// The time that is left until `time` by this machine's clock, as a compact
/// text; none where `time` has passed.
pub fn get_remaining_time(time: DateTime) -> (left: Option<String>)
    requires
        time.wf(),
    ensures
        exists|now: DateTime| now.wf() && option_text(left) == remaining_text(time, now),
{
    let now = now();
    remaining_at(time, now)
}

/// Whether `word` says yes: it is `y` or `yes`.
pub open spec fn says_yes(word: Seq<char>) -> bool {
    word == "y"@ || word == "yes"@
}

/// Whether `word` says yes: it is `y` or `yes`, in exactly these letters.
pub fn means_yes(word: &String) -> (yes: bool)
    ensures
        yes == says_yes(word@),
{
    *word == String::from_str("y") || *word == String::from_str("yes")
}

/// Whether the line `answer`, as it was typed, confirms: without the white
/// space around it and in lower case it is `y` or `yes`.
pub fn confirm_prompt(answer: &str) -> (confirmed: bool)
    ensures
        confirmed == says_yes(lowercased(trimmed(answer@))),
{
    let word = to_lowercase(trim(answer));
    means_yes(&word)
}

/// What was entered on the line `line`: the line without the white space
/// around it, which is one unbroken stretch of the line.
pub fn get_input(line: &str) -> (input: String)
    ensures
        input@ == trimmed(line@),
        is_part(input@, line@),
{
    trim(line).to_owned()
}

} // verus!
