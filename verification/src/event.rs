//! Ready-made events with a timestamp: one call per level, each complete in
//! itself. Nothing is shared between two calls and no writer is needed. The
//! caller reads the clock and says when the event happened.

use vstd::prelude::*;
use crate::ansi::{
    ansi_reset, ansi_set_color, esc, escape_free, lemma_reset_is_invisible,
    lemma_style_is_invisible, lemma_visible_after_plain, reset_text, style_text, visible_text,
};
use crate::level::{Level, Style};
use crate::line::{
    lemma_stamped_line_escape_free, lemma_stamped_line_keeps_message, stamped_line,
    stamped_line_text, stamped_message_start,
};
use crate::stamp::{
    fits_stamp_at, holds_text, is_stamp_text, stamp_at, stamp_format, utc_format_text,
};

verus! {

/// What a stamped event sends to the terminal. An `INFO` event is the bare
/// line, without any escape sequence; every other event is its line between
/// the style of its level and the reset.
pub open spec fn event_text(level: Level, stamp: Seq<char>, message: Seq<char>) -> Seq<char> {
    if level == Level::INFO {
        stamped_line_text(stamp, level, message)
    } else {
        style_text(level.style_of()) + stamped_line_text(stamp, level, message) + reset_text()
    }
}

/// What an event sends that happens `secs` seconds after the start of 1970;
/// `None` where there is no timestamp for that moment.
pub open spec fn event_text_at(level: Level, secs: int, message: Seq<char>) -> Option<Seq<char>> {
    match utc_format_text(secs, stamp_format()) {
        Some(stamp) => Some(event_text(level, stamp, message)),
        None => None,
    }
}

/// The style in which a stamped event is shown: none for `INFO`, whose line
/// is written plainly, and the style of the level for every other.
pub open spec fn event_style_of(level: Level) -> Option<Style> {
    if level == Level::INFO {
        None
    } else {
        Some(level.style_of())
    }
}

/// The style to set before the line of a stamped event and to reset after
/// it; `None` where the line is written without either.
pub fn event_style(level: Level) -> (style: Option<Style>)
    ensures
        style == event_style_of(level),
{
    match level {
        Level::INFO => None,
        _ => Some(level.style()),
    }
}

/// The output of an event whose timestamp is already written.
pub fn event_from_stamp(level: Level, stamp: &str, message: &str) -> (text: String)
    ensures
        text@ == event_text(level, stamp@, message@),
{
    let line = stamped_line(stamp, level, message);
    match event_style(level) {
        None => line,
        Some(style) => {
            let mut text = ansi_set_color(style);
            text.append(line.as_str());
            text.append(ansi_reset().as_str());
            text
        },
    }
}

/// The output of an event given the moment it happened, in seconds since the
/// start of 1970; `None` where there is no timestamp for that moment.
pub fn event_at(level: Level, secs: i64, message: &str) -> (text: Option<String>)
    ensures
        holds_text(text, event_text_at(level, secs as int, message@)),
{
    match stamp_at(secs) {
        Some(stamp) => Some(event_from_stamp(level, stamp.as_str(), message)),
        None => None,
    }
}

/// A `TRACE` event that happened at `secs`.
pub fn trace(secs: i64, message: &str) -> (text: Option<String>)
    ensures
        holds_text(text, event_text_at(Level::TRACE, secs as int, message@)),
{
    event_at(Level::TRACE, secs, message)
}

/// A `DEBUG` event that happened at `secs`.
pub fn debug(secs: i64, message: &str) -> (text: Option<String>)
    ensures
        holds_text(text, event_text_at(Level::DEBUG, secs as int, message@)),
{
    event_at(Level::DEBUG, secs, message)
}

/// An `INFO` event that happened at `secs`.
pub fn info(secs: i64, message: &str) -> (text: Option<String>)
    ensures
        holds_text(text, event_text_at(Level::INFO, secs as int, message@)),
{
    event_at(Level::INFO, secs, message)
}

/// A `WARN` event that happened at `secs`.
pub fn warn(secs: i64, message: &str) -> (text: Option<String>)
    ensures
        holds_text(text, event_text_at(Level::WARN, secs as int, message@)),
{
    event_at(Level::WARN, secs, message)
}

/// An `ERROR` event that happened at `secs`.
pub fn error(secs: i64, message: &str) -> (text: Option<String>)
    ensures
        holds_text(text, event_text_at(Level::ERROR, secs as int, message@)),
{
    event_at(Level::ERROR, secs, message)
}

/// A `FATAL` event that happened at `secs`.
pub fn fatal(secs: i64, message: &str) -> (text: Option<String>)
    ensures
        holds_text(text, event_text_at(Level::FATAL, secs as int, message@)),
{
    event_at(Level::FATAL, secs, message)
}

/// Where the message starts in the output of a stamped event.
pub open spec fn event_message_start(level: Level, stamp: Seq<char>) -> int {
    if level == Level::INFO {
        stamped_message_start(stamp, level)
    } else {
        style_text(level.style_of()).len() + stamped_message_start(stamp, level)
    }
}

/// The message stands in the output of a stamped event unchanged, whatever
/// it holds: line feeds and escape characters too.
pub proof fn lemma_event_keeps_message(level: Level, stamp: Seq<char>, message: Seq<char>)
    ensures
        event_text(level, stamp, message).subrange(
            event_message_start(level, stamp),
            event_message_start(level, stamp) + message.len(),
        ) == message,
{
    let line = stamped_line_text(stamp, level, message);
    let k = stamped_message_start(stamp, level);
    let n = event_message_start(level, stamp);
    lemma_stamped_line_keeps_message(stamp, level, message);
    assert(line.subrange(k, k + message.len()) == message);
    assert(event_text(level, stamp, message).subrange(n, n + message.len()) =~= line.subrange(
        k,
        k + message.len(),
    ));
}

/// A text of the shape of a timestamp holds no escape character.
pub proof fn lemma_stamp_is_escape_free(stamp: Seq<char>)
    requires
        is_stamp_text(stamp),
    ensures
        escape_free(stamp),
{
    assert forall|i: int| 0 <= i < stamp.len() implies stamp[i] != esc() by {
        assert(fits_stamp_at(i, stamp[i]));
    }
}

/// Without its escape sequences the output of a stamped event is exactly
/// `[<stamp> <LABEL>] <message>` and a line feed, for a stamp and a message
/// that hold no escape character; a stamp of the shape
/// `YYYY-MM-DDTHH:MM:SS+ZZZZ` is such a stamp.
pub proof fn lemma_visible_event_is_stamped_line(
    level: Level,
    stamp: Seq<char>,
    message: Seq<char>,
)
    requires
        escape_free(stamp),
        escape_free(message),
    ensures
        visible_text(event_text(level, stamp, message), false) == stamped_line_text(
            stamp,
            level,
            message,
        ),
{
    let line = stamped_line_text(stamp, level, message);
    let empty = Seq::<char>::empty();
    lemma_stamped_line_escape_free(stamp, level, message);
    assert(visible_text(empty, false) =~= empty);
    assert(line + empty =~= line);
    if level == Level::INFO {
        lemma_visible_after_plain(line, empty);
    } else {
        assert(event_text(level, stamp, message) =~= style_text(level.style_of()) + (line
            + reset_text()));
        lemma_style_is_invisible(level.style_of(), line + reset_text());
        lemma_visible_after_plain(line, reset_text());
        lemma_reset_is_invisible(empty);
        assert(reset_text() + empty =~= reset_text());
    }
}

} // verus!
