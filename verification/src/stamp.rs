//! Timestamps: the time of an event in UTC, written as
//! `YYYY-MM-DDTHH:MM:SS+ZZZZ`. The calendar is left to `chrono`.

use std::fmt::Write;
use vstd::prelude::*;

verus! {

/// The text that `chrono` gives for the moment `secs` seconds after the start
/// of 1970 in UTC when it is asked to write it in `format`; `None` where
/// `chrono` has no date for that moment or cannot write it in that format.
pub uninterp spec fn utc_format_text(secs: int, format: Seq<char>) -> Option<Seq<char>>;

/// Whether an optional string holds the optional text.
pub open spec fn holds_text(found: Option<String>, text: Option<Seq<char>>) -> bool {
    match found {
        Some(s) => text == Some(s@),
        None => text is None,
    }
}

/// The format of a timestamp, in the notation of `chrono`: year, month and
/// day with hyphens between them, `T`, hour, minute and second with colons
/// between them, and the offset from UTC as a sign and four digits.
pub open spec fn stamp_format() -> Seq<char> {
    "%Y-%m-%dT%H:%M:%S%z"@
}

/// Calls `chrono::DateTime::from_timestamp` with no nanoseconds and, where
/// that gives a date, writes what `chrono::DateTime::format` makes of it in
/// `format` into a string. Where `chrono` has no date or reports an error
/// while writing, the result is `None`. Trusted: that the result depends on
/// `secs` and `format` alone, so that it can be called [`utc_format_text`].
#[verifier::external_body]
pub(crate) fn utc_format(secs: i64, format: &str) -> (text: Option<String>)
    ensures
        holds_text(text, utc_format_text(secs as int, format@)),
{
    match chrono::DateTime::from_timestamp(secs, 0) {
        Some(moment) => {
            let mut text = String::new();
            match write!(text, "{}", moment.format(format)) {
                Ok(()) => Some(text),
                Err(_) => None,
            }
        },
        None => None,
    }
}

/// The timestamp of the moment `secs` seconds after the start of 1970 in
/// UTC, written as [`stamp_format`] says; `None` where the calendar does not
/// reach that far.
pub fn stamp_at(secs: i64) -> (text: Option<String>)
    ensures
        holds_text(text, utc_format_text(secs as int, stamp_format())),
{
    utc_format(secs, "%Y-%m-%dT%H:%M:%S%z")
}

/// Whether `c` may stand at place `at` of a timestamp
/// `YYYY-MM-DDTHH:MM:SS+ZZZZ`: the separators at their places, a sign in
/// front of the offset, a digit anywhere else.
pub open spec fn fits_stamp_at(at: int, c: char) -> bool {
    if at == 4 || at == 7 {
        c == '-'
    } else if at == 10 {
        c == 'T'
    } else if at == 13 || at == 16 {
        c == ':'
    } else if at == 19 {
        c == '+' || c == '-'
    } else {
        '0' <= c <= '9'
    }
}

/// Whether a text has the shape `YYYY-MM-DDTHH:MM:SS+ZZZZ`: 24 characters,
/// each fitting its place.
pub open spec fn is_stamp_text(text: Seq<char>) -> bool {
    &&& text.len() == 24
    &&& forall|i: int| 0 <= i < 24 ==> fits_stamp_at(i, #[trigger] text[i])
}

/// Whether a text has the shape of a timestamp, as years of four digits
/// give it.
pub fn is_stamp(text: &str) -> (fits: bool)
    ensures
        fits == is_stamp_text(text@),
{
    if text.unicode_len() != 24 {
        return false;
    }
    let mut i: usize = 0;
    while i < 24
        invariant
            text@.len() == 24,
            i <= 24,
            forall|j: int| 0 <= j < i ==> fits_stamp_at(j, #[trigger] text@[j]),
        decreases 24 - i,
    {
        let c = text.get_char(i);
        let fits = if i == 4 || i == 7 {
            c == '-'
        } else if i == 10 {
            c == 'T'
        } else if i == 13 || i == 16 {
            c == ':'
        } else if i == 19 {
            c == '+' || c == '-'
        } else {
            '0' <= c && c <= '9'
        };
        if !fits {
            assert(!fits_stamp_at(i as int, text@[i as int]));
            return false;
        }
        i += 1;
    }
    true
}

} // verus!
