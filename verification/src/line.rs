//! The text of one log line, without any styling.

use vstd::prelude::*;
use crate::ansi::{esc, escape_free};
use crate::level::{lemma_label_spelling, Level};

verus! {

/// `<LABEL> <message>` and a line feed.
pub open spec fn plain_line_text(level: Level, message: Seq<char>) -> Seq<char> {
    level.label_text() + seq![' '] + message + seq!['\n']
}

/// `[<stamp> <LABEL>] <message>` and a line feed.
pub open spec fn stamped_line_text(stamp: Seq<char>, level: Level, message: Seq<char>) -> Seq<
    char,
> {
    seq!['['] + stamp + seq![' '] + level.label_text() + seq![']', ' '] + message + seq!['\n']
}

/// The line for an event without a timestamp. The message is taken as it is:
/// nothing in it is escaped or removed.
pub fn plain_line(level: Level, message: &str) -> (line: String)
    ensures
        line@ == plain_line_text(level, message@),
{
    proof {
        reveal_strlit(" ");
        reveal_strlit("\n");
    }
    let mut line = String::from_str(level.label());
    line.append(" ");
    line.append(message);
    line.append("\n");
    assert(line@ =~= plain_line_text(level, message@));
    line
}

/// The line for an event with a timestamp in front of the label. Stamp and
/// message are taken as they are.
pub fn stamped_line(stamp: &str, level: Level, message: &str) -> (line: String)
    ensures
        line@ == stamped_line_text(stamp@, level, message@),
{
    proof {
        reveal_strlit("[");
        reveal_strlit(" ");
        reveal_strlit("] ");
        reveal_strlit("\n");
    }
    let mut line = String::from_str("[");
    line.append(stamp);
    line.append(" ");
    line.append(level.label());
    line.append("] ");
    line.append(message);
    line.append("\n");
    assert(line@ =~= stamped_line_text(stamp@, level, message@));
    line
}

/// Where the message starts in a plain line: behind the label and one blank.
pub open spec fn plain_message_start(level: Level) -> int {
    level.label_text().len() as int + 1
}

/// Where the message starts in a stamped line: behind the bracketed stamp and
/// label and one blank.
pub open spec fn stamped_message_start(stamp: Seq<char>, level: Level) -> int {
    stamp.len() as int + level.label_text().len() as int + 4
}

/// The message stands in a plain line unchanged, right behind the label and
/// one blank, and only the line feed follows it.
pub proof fn lemma_plain_line_keeps_message(level: Level, message: Seq<char>)
    ensures
        plain_line_text(level, message).len() == plain_message_start(level) + message.len() + 1,
        plain_line_text(level, message).subrange(
            plain_message_start(level),
            plain_message_start(level) + message.len(),
        ) == message,
        plain_line_text(level, message).subrange(0, plain_message_start(level) - 1)
            == level.label_text(),
        plain_line_text(level, message)[plain_message_start(level) - 1] == ' ',
        plain_line_text(level, message).last() == '\n',
{
    let line = plain_line_text(level, message);
    let k = plain_message_start(level);
    assert(line.subrange(k, k + message.len()) =~= message);
    assert(line.subrange(0, k - 1) =~= level.label_text());
}

/// The message stands in a stamped line unchanged, behind the bracketed stamp
/// and label, and only the line feed follows it.
pub proof fn lemma_stamped_line_keeps_message(stamp: Seq<char>, level: Level, message: Seq<char>)
    ensures
        stamped_line_text(stamp, level, message).len() == stamped_message_start(stamp, level)
            + message.len() + 1,
        stamped_line_text(stamp, level, message).subrange(
            stamped_message_start(stamp, level),
            stamped_message_start(stamp, level) + message.len(),
        ) == message,
        stamped_line_text(stamp, level, message)[0] == '[',
        stamped_line_text(stamp, level, message).subrange(1, stamp.len() as int + 1) == stamp,
        stamped_line_text(stamp, level, message).subrange(
            stamp.len() as int + 2,
            stamped_message_start(stamp, level) - 2,
        ) == level.label_text(),
        stamped_line_text(stamp, level, message).last() == '\n',
{
    let line = stamped_line_text(stamp, level, message);
    let k = stamped_message_start(stamp, level);
    assert(line.subrange(k, k + message.len()) =~= message);
    assert(line.subrange(1, stamp.len() as int + 1) =~= stamp);
    assert(line.subrange(stamp.len() as int + 2, k - 2) =~= level.label_text());
}

/// A plain line holds an escape character only where its message does.
pub proof fn lemma_plain_line_escape_free(level: Level, message: Seq<char>)
    requires
        escape_free(message),
    ensures
        escape_free(plain_line_text(level, message)),
{
    lemma_label_spelling(level);
    let label = level.label_text();
    let line = plain_line_text(level, message);
    assert forall|i: int| 0 <= i < line.len() implies line[i] != esc() by {
        if i < label.len() {
            assert(line[i] == label[i]);
        } else if i == label.len() {
        } else if i < label.len() + 1 + message.len() {
            assert(line[i] == message[i - label.len() - 1]);
        } else {
        }
    }
}

/// A stamped line holds an escape character only where its stamp or its
/// message does.
pub proof fn lemma_stamped_line_escape_free(stamp: Seq<char>, level: Level, message: Seq<char>)
    requires
        escape_free(stamp),
        escape_free(message),
    ensures
        escape_free(stamped_line_text(stamp, level, message)),
{
    lemma_label_spelling(level);
    let label = level.label_text();
    let line = stamped_line_text(stamp, level, message);
    let a = stamp.len() as int + 1;
    let b = a + 1 + label.len();
    assert forall|i: int| 0 <= i < line.len() implies line[i] != esc() by {
        if i == 0 {
        } else if i < a {
            assert(line[i] == stamp[i - 1]);
        } else if i == a {
        } else if i < b {
            assert(line[i] == label[i - a - 1]);
        } else if i < b + 2 {
        } else if i < b + 2 + message.len() {
            assert(line[i] == message[i - b - 2]);
        } else {
        }
    }
}

} // verus!
