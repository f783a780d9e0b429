//! A writer that logs into memory: it holds, as text, everything an ANSI
//! terminal would have been sent.

use vstd::prelude::*;
use crate::ansi::{
    esc, escape_at, escape_free, foreground_start, lemma_colored_levels_set_foreground_once,
    lemma_info_sets_no_foreground, lemma_reset_is_invisible, lemma_style_is_invisible,
    lemma_visible_after_plain, reset_text, sets_foreground_at, style_text, visible_text,
};
use crate::level::Level;
use crate::line::{lemma_plain_line_escape_free, plain_line_text};
use crate::protocol::{
    lemma_finished_stays, lemma_finished_takes_nothing, Failure, LogCall, Phase,
};

verus! {

/// What one event sends to the terminal: the style of its level, the line,
/// and the reset.
pub open spec fn rendered_text(level: Level, message: Seq<char>) -> Seq<char> {
    style_text(level.style_of()) + plain_line_text(level, message) + reset_text()
}

/// What a call has sent when it arrives at `phase` with every send taken.
pub open spec fn sent_before(phase: Phase, level: Level, message: Seq<char>) -> Seq<char> {
    match phase {
        Phase::SetStyle => Seq::empty(),
        Phase::Write => style_text(level.style_of()),
        Phase::Reset => style_text(level.style_of()) + plain_line_text(level, message),
        Phase::Finished => rendered_text(level, message),
    }
}

/// The sends that a call in `phase` still has to make.
pub open spec fn sends_left(phase: Phase) -> nat {
    match phase {
        Phase::SetStyle => 3,
        Phase::Write => 2,
        Phase::Reset => 1,
        Phase::Finished => 0,
    }
}

/// Collects the output of log calls. Its view is the text written so far.
pub struct ConsoleWriter {
    out: String,
}

impl View for ConsoleWriter {
    type V = Seq<char>;

    closed spec fn view(&self) -> Seq<char> {
        self.out@
    }
}

impl Default for ConsoleWriter {
    /// A writer with nothing written yet.
    fn default() -> (writer: ConsoleWriter)
        ensures
            writer@ == Seq::<char>::empty(),
    {
        ConsoleWriter { out: String::new() }
    }
}

impl ConsoleWriter {
    /// A writer that continues the text it is given.
    pub fn new(out: String) -> (writer: ConsoleWriter)
        ensures
            writer@ == out@,
    {
        ConsoleWriter { out }
    }

    /// Writes one event: the style of its level, then `<LABEL> <message>` and a
    /// line feed, then the reset. Nothing written before is touched, and the
    /// terminal is in its default style again when the call returns.
    pub fn log(&mut self, level: Level, message: &str)
        ensures
            final(self)@ == old(self)@ + rendered_text(level, message@),
    {
        let ghost before = self.out@;
        let mut call = LogCall::begin(level);
        while !call.is_finished()
            invariant
                call.wf(),
                call.level == level,
                call.failure is None,
                self.out@ == before + sent_before(call.phase, level, message@),
            decreases sends_left(call.phase),
        {
            if let Some(text) = call.chunk(message) {
                self.out.append(text.as_str());
            }
            call.advance(true);
            assert(self.out@ =~= before + sent_before(call.phase, level, message@));
        }
        assert(self.out@ =~= before + rendered_text(level, message@));
    }

    /// The text written so far.
    pub fn as_str(&self) -> (text: &str)
        ensures
            text@ == self@,
    {
        self.out.as_str()
    }

    /// Hands out the text written so far and starts anew with none, so that
    /// a caller can pass it on to a terminal piece by piece.
    pub fn take(&mut self) -> (text: String)
        ensures
            text@ == old(self)@,
            final(self)@ == Seq::<char>::empty(),
    {
        let mut text = String::new();
        std::mem::swap(&mut self.out, &mut text);
        text
    }

    /// Gives up the writer for the text written.
    pub fn into_inner(self) -> (text: String)
        ensures
            text@ == self@,
    {
        self.out
    }
}

/// What one event sends to the terminal, as a text of its own.
pub fn render(level: Level, message: &str) -> (text: String)
    ensures
        text@ == rendered_text(level, message@),
{
    let mut writer = ConsoleWriter::new(String::new());
    writer.log(level, message);
    let text = writer.into_inner();
    assert(text@ =~= rendered_text(level, message@));
    text
}

/// The output of one event is its plain line between escape sequences: the
/// style in front, which starts with an escape character and ends in `m`,
/// and the reset behind. The message stands in it unchanged.
pub proof fn lemma_rendered_frames_line(level: Level, message: Seq<char>)
    ensures
        ({
            let text = rendered_text(level, message);
            let style = style_text(level.style_of());
            let line = plain_line_text(level, message);
            let s = style.len() as int;
            let l = line.len() as int;
            let k = s + level.label_text().len() + 1;
            &&& text.len() == s + l + 4
            &&& text.subrange(0, s) == style
            &&& text.subrange(s, s + l) == line
            &&& text.subrange(s + l, s + l + 4) == reset_text()
            &&& text.subrange(k, k + message.len()) == message
            &&& style.subrange(0, 4) == reset_text()
            &&& style.last() == 'm'
        }),
{
    let text = rendered_text(level, message);
    let style = style_text(level.style_of());
    let line = plain_line_text(level, message);
    let s = style.len() as int;
    let l = line.len() as int;
    let k = s + level.label_text().len() + 1;
    assert(text.subrange(0, s) =~= style);
    assert(text.subrange(s, s + l) =~= line);
    assert(text.subrange(s + l, s + l + 4) =~= reset_text());
    assert(text.subrange(k, k + message.len()) =~= message);
    assert(style.subrange(0, 4) =~= reset_text());
}

/// Without its escape sequences the output of an event is exactly
/// `<LABEL> <message>` and a line feed. This is said of a message that holds
/// no escape character: one that does is written out as it is, and a reader
/// who takes the sequences out would take out a part of the message too.
pub proof fn lemma_visible_event_is_plain_line(level: Level, message: Seq<char>)
    requires
        escape_free(message),
    ensures
        visible_text(rendered_text(level, message), false) == plain_line_text(level, message),
{
    let line = plain_line_text(level, message);
    let empty = Seq::<char>::empty();
    lemma_plain_line_escape_free(level, message);
    assert(rendered_text(level, message) =~= style_text(level.style_of()) + (line + reset_text()));
    lemma_style_is_invisible(level.style_of(), line + reset_text());
    lemma_visible_after_plain(line, reset_text());
    lemma_reset_is_invisible(empty);
    assert(reset_text() + empty =~= reset_text());
    assert(visible_text(empty, false) =~= empty);
    assert(line + empty =~= line);
}

/// In the output of an event whose message holds no escape character, an
/// `INFO` event sets the foreground colour nowhere, and an event of any other
/// level sets it at exactly one place: in its style, before the label.
pub proof fn lemma_event_sets_foreground_at_most_once(level: Level, message: Seq<char>)
    requires
        escape_free(message),
    ensures
        level == Level::INFO ==> forall|at: int|
            !sets_foreground_at(rendered_text(level, message), at),
        level != Level::INFO ==> forall|at: int|
            sets_foreground_at(rendered_text(level, message), at) <==> at == foreground_start(
                level,
            ),
        level != Level::INFO ==> 0 <= foreground_start(level) < style_text(level.style_of()).len(),
{
    let text = rendered_text(level, message);
    let style = style_text(level.style_of());
    let line = plain_line_text(level, message);
    let s = style.len() as int;
    let l = line.len() as int;
    lemma_plain_line_escape_free(level, message);
    lemma_rendered_frames_line(level, message);
    if level == Level::INFO {
        lemma_info_sets_no_foreground();
        assert forall|at: int| !sets_foreground_at(text, at) by {
            if 0 <= at < text.len() && text[at] == esc() {
                if at < s {
                    assert(text[at] == style[at]);
                    assert(style =~= reset_text());
                    assert(at == 0);
                    assert(text[2] == style[2]);
                } else if at < s + l {
                    assert(text[at] == line[at - s]);
                } else {
                    assert(text[at] == reset_text()[at - s - l]);
                    assert(at == s + l);
                    assert(text[at + 2] == reset_text()[2]);
                }
            }
        }
    } else {
        lemma_colored_levels_set_foreground_once(level);
        assert(sets_foreground_at(style, foreground_start(level)));
        assert forall|at: int| sets_foreground_at(text, at) <==> at == foreground_start(
            level,
        ) by {
            if 0 <= at < text.len() && text[at] == esc() {
                if at < s {
                    assert(text[at] == style[at]);
                    assert(escape_at(style, at));
                    assert(text[at + 1] == style[at + 1]);
                    assert(text[at + 2] == style[at + 2]);
                    assert(sets_foreground_at(text, at) == sets_foreground_at(style, at));
                } else if at < s + l {
                    assert(text[at] == line[at - s]);
                } else {
                    assert(text[at] == reset_text()[at - s - l]);
                    assert(at == s + l);
                    assert(text[at + 2] == reset_text()[2]);
                }
            }
            if at == foreground_start(level) {
                assert(escape_at(style, at));
                assert(text[at] == style[at]);
                assert(text[at + 1] == style[at + 1]);
                assert(text[at + 2] == style[at + 2]);
            }
        }
    }
}

/// A call that reports success has sent the whole event and nothing else:
/// what the stream took is the style, the line and the reset, in this order.
pub proof fn lemma_successful_call_sends_event(
    level: Level,
    message: Seq<char>,
    answers: Seq<bool>,
)
    requires
        LogCall::start(level).run(answers).outcome_of() == Some(Ok::<(), Failure>(())),
    ensures
        LogCall::start(level).taken(answers, message) == rendered_text(level, message),
{
    let s0 = LogCall::start(level);
    if answers.len() == 0 {
        assert(s0.run(answers) == s0);
    } else {
        let r1 = answers.drop_first();
        let s1 = s0.step(answers[0]);
        assert(s0.run(answers) == s1.run(r1));
        if !answers[0] {
            lemma_finished_stays(s1, r1);
        } else if r1.len() == 0 {
            assert(s1.run(r1) == s1);
        } else {
            let r2 = r1.drop_first();
            let s2 = s1.step(r1[0]);
            assert(s1.run(r1) == s2.run(r2));
            if r2.len() == 0 {
                assert(s2.run(r2) == s2);
            } else {
                let r3 = r2.drop_first();
                let s3 = s2.step(r2[0]);
                assert(s2.run(r2) == s3.run(r3));
                lemma_finished_stays(s3, r3);
                lemma_finished_takes_nothing(s3, r3, message);
                assert(r1[0] && r2[0]);
                assert(s2.taken(r2, message) =~= reset_text());
                assert(s1.taken(r1, message) =~= plain_line_text(level, message) + reset_text());
                assert(s0.taken(answers, message) =~= rendered_text(level, message));
            }
        }
    }
}

/// Two events in a row: the second starts with a reset of its own and the
/// first has ended with one, so no style passes from one to the other.
pub proof fn lemma_events_do_not_share_style(
    first: Level,
    first_message: Seq<char>,
    second: Level,
    second_message: Seq<char>,
)
    ensures
        ({
            let a = rendered_text(first, first_message);
            let b = rendered_text(second, second_message);
            let n = a.len() as int;
            &&& (a + b).subrange(n - 4, n) == reset_text()
            &&& (a + b).subrange(n, n + 4) == reset_text()
        }),
{
    let a = rendered_text(first, first_message);
    let b = rendered_text(second, second_message);
    lemma_rendered_frames_line(first, first_message);
    lemma_rendered_frames_line(second, second_message);
    let n = a.len() as int;
    assert((a + b).subrange(n - 4, n) =~= a.subrange(n - 4, n));
    assert((a + b).subrange(n, n + 4) =~= b.subrange(0, 4));
    assert(b.subrange(0, 4) =~= style_text(second.style_of()).subrange(0, 4));
}

} // verus!
