//! The time of day, as the text that the monitor hands out.

use vstd::prelude::*;

verus! {

/// The character is a decimal digit.
pub open spec fn is_digit(c: char) -> bool {
    '0' <= c <= '9'
}

/// The text is a point in time in UTC with microseconds: a year of four or more characters,
/// followed by `-MM-DDTHH:MM:SS.ffffffZ`.
pub open spec fn is_timestamp(text: Seq<char>) -> bool {
    let n = text.len();
    &&& n >= 27
    &&& text[n - 23] == '-'
    &&& is_digit(text[n - 22]) && is_digit(text[n - 21])
    &&& text[n - 20] == '-'
    &&& is_digit(text[n - 19]) && is_digit(text[n - 18])
    &&& text[n - 17] == 'T'
    &&& is_digit(text[n - 16]) && is_digit(text[n - 15])
    &&& text[n - 14] == ':'
    &&& is_digit(text[n - 13]) && is_digit(text[n - 12])
    &&& text[n - 11] == ':'
    &&& is_digit(text[n - 10]) && is_digit(text[n - 9])
    &&& text[n - 8] == '.'
    &&& forall|i: int| n - 7 <= i < n - 1 ==> is_digit(#[trigger] text[i])
    &&& text[n - 1] == 'Z'
}

/// Calls `chrono::Utc::now` and `chrono::DateTime::to_rfc3339_opts` with microseconds and `Z`.
/// Claimed: the shape of the text. Which moment it names rests on the clock of the machine and
/// is left unsaid; a clock that stands before 1970 makes the call panic.
#[verifier::external_body]
pub(crate) fn now_iso() -> (now: String)
    ensures
        is_timestamp(now@),
{
    chrono::Utc::now().to_rfc3339_opts(chrono::SecondsFormat::Micros, true)
}

/// A point in time ends with minutes, seconds, six digits of a second and the sign of UTC.
pub proof fn timestamps_tell_microseconds(text: Seq<char>)
    requires
        is_timestamp(text),
    ensures
        text.len() >= 27,
        text.last() == 'Z',
        text[text.len() - 8] == '.',
        forall|i: int|
            text.len() - 7 <= i < text.len() - 1 ==> '0' <= #[trigger] text[i] && text[i] <= '9',
        text[text.len() - 11] == ':' && text[text.len() - 14] == ':',
        text[text.len() - 17] == 'T',
        text[text.len() - 20] == '-' && text[text.len() - 23] == '-',
{
}

} // verus!
