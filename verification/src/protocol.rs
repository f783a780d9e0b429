//! One log call on a stream that may refuse what it is sent.
//!
//! A call makes three sends: the style, the line, the reset. [`LogCall`] says
//! which comes next and keeps account of what the stream did, so that whoever
//! owns the stream only has to send what it is handed and report back.

use vstd::prelude::*;
use crate::ansi::{ansi_reset, ansi_set_color, reset_text, style_text};
use crate::level::Level;
use crate::line::{plain_line, plain_line_text};

verus! {

/// What a log call does next.
#[derive(Clone, Copy, Debug, PartialEq, Eq, Structural, Hash)]
pub enum Phase {
    /// Put the stream into the level's style.
    SetStyle,
    /// Send the line.
    Write,
    /// Put the stream back into its default style.
    Reset,
    /// Nothing: the call is over.
    Finished,
}

/// The send that the stream refused. There is one kind of failure, a stream
/// that does not take what it is sent; this says at which step it happened.
#[derive(Clone, Copy, Debug, PartialEq, Eq, Structural, Hash)]
pub enum Failure {
    SetStyle,
    Write,
    Reset,
}

/// The progress of one log call.
#[derive(Clone, Copy, Debug, PartialEq, Eq)]
pub struct LogCall {
    /// The level of the event.
    pub level: Level,
    /// What comes next.
    pub phase: Phase,
    /// Whether the stream carries the style of this call: it took the style
    /// and has not taken a reset since.
    pub styled: bool,
    /// The failure that the call will report, if any so far.
    pub failure: Option<Failure>,
}

impl LogCall {
    /// A call that has sent nothing yet.
    pub open spec fn start(level: Level) -> LogCall {
        LogCall { level, phase: Phase::SetStyle, styled: false, failure: None }
    }

    /// The states that a call can be in.
    pub open spec fn wf(self) -> bool {
        match self.phase {
            Phase::SetStyle => !self.styled && self.failure is None,
            Phase::Write => self.styled && self.failure is None,
            Phase::Reset => self.styled && (self.failure is None || self.failure == Some(
                Failure::Write,
            )),
            Phase::Finished => match self.failure {
                Some(Failure::Reset) => self.styled,
                _ => !self.styled,
            },
        }
    }

    /// The call after the stream has answered the pending send, `sent` telling
    /// whether it took it.
    ///
    /// A refused style ends the call at once: no style was acquired, so there
    /// is none to give back. After the style was taken the reset is always
    /// sent, whether the line went through or not. A refused reset is what
    /// the call reports even if the line had been refused before it, since
    /// only then is the stream left styled.
    pub open spec fn step(self, sent: bool) -> LogCall {
        match self.phase {
            Phase::SetStyle => if sent {
                LogCall { phase: Phase::Write, styled: true, ..self }
            } else {
                LogCall { phase: Phase::Finished, failure: Some(Failure::SetStyle), ..self }
            },
            Phase::Write => if sent {
                LogCall { phase: Phase::Reset, ..self }
            } else {
                LogCall { phase: Phase::Reset, failure: Some(Failure::Write), ..self }
            },
            Phase::Reset => if sent {
                LogCall { phase: Phase::Finished, styled: false, ..self }
            } else {
                LogCall { phase: Phase::Finished, failure: Some(Failure::Reset), ..self }
            },
            Phase::Finished => self,
        }
    }

    /// The call after the stream has answered a series of sends, one after
    /// the other.
    pub open spec fn run(self, answers: Seq<bool>) -> LogCall
        decreases answers.len(),
    {
        if answers.len() == 0 {
            self
        } else {
            self.step(answers[0]).run(answers.drop_first())
        }
    }

    /// What is to be sent in the pending phase, for an event with this
    /// message; `None` once the call is over.
    pub open spec fn chunk_text(self, message: Seq<char>) -> Option<Seq<char>> {
        match self.phase {
            Phase::SetStyle => Some(style_text(self.level.style_of())),
            Phase::Write => Some(plain_line_text(self.level, message)),
            Phase::Reset => Some(reset_text()),
            Phase::Finished => None,
        }
    }

    /// What the stream has taken of an event with this message over a series
    /// of answers: the texts of the sends that it did not refuse, in order.
    pub open spec fn taken(self, answers: Seq<bool>, message: Seq<char>) -> Seq<char>
        decreases answers.len(),
    {
        if answers.len() == 0 {
            Seq::empty()
        } else {
            let head = if answers[0] && self.chunk_text(message) is Some {
                self.chunk_text(message)->Some_0
            } else {
                Seq::empty()
            };
            head + self.step(answers[0]).taken(answers.drop_first(), message)
        }
    }

    /// How the call ends: `None` while it is not over.
    pub open spec fn outcome_of(self) -> Option<Result<(), Failure>> {
        if self.phase != Phase::Finished {
            None
        } else {
            match self.failure {
                Some(failure) => Some(Err(failure)),
                None => Some(Ok(())),
            }
        }
    }

    /// Starts a call for an event of the given level.
    pub fn begin(level: Level) -> (call: LogCall)
        ensures
            call == LogCall::start(level),
            call.wf(),
    {
        LogCall { level, phase: Phase::SetStyle, styled: false, failure: None }
    }

    /// Whether the call is over.
    pub fn is_finished(&self) -> (done: bool)
        ensures
            done == (self.phase == Phase::Finished),
    {
        self.phase == Phase::Finished
    }

    /// What to send to the stream now, for an event with this message; `None`
    /// once the call is over.
    pub fn chunk(&self, message: &str) -> (text: Option<String>)
        ensures
            match text {
                Some(t) => self.chunk_text(message@) == Some(t@),
                None => self.chunk_text(message@) is None,
            },
    {
        match self.phase {
            Phase::SetStyle => Some(ansi_set_color(self.level.style())),
            Phase::Write => Some(plain_line(self.level, message)),
            Phase::Reset => Some(ansi_reset()),
            Phase::Finished => None,
        }
    }

    /// Takes note of the stream's answer to the pending send and moves on.
    pub fn advance(&mut self, sent: bool)
        ensures
            *final(self) == old(self).step(sent),
            old(self).wf() ==> final(self).wf(),
    {
        match self.phase {
            Phase::SetStyle => {
                if sent {
                    self.phase = Phase::Write;
                    self.styled = true;
                } else {
                    self.phase = Phase::Finished;
                    self.failure = Some(Failure::SetStyle);
                }
            },
            Phase::Write => {
                if !sent {
                    self.failure = Some(Failure::Write);
                }
                self.phase = Phase::Reset;
            },
            Phase::Reset => {
                if sent {
                    self.styled = false;
                } else {
                    self.failure = Some(Failure::Reset);
                }
                self.phase = Phase::Finished;
            },
            Phase::Finished => {},
        }
    }

    /// How the call ended: `None` while it is not over, `Ok` if the stream
    /// took all three sends, else the failure to report.
    pub fn outcome(&self) -> (result: Option<Result<(), Failure>>)
        ensures
            result == self.outcome_of(),
    {
        if self.phase != Phase::Finished {
            None
        } else {
            match self.failure {
                Some(failure) => Some(Err(failure)),
                None => Some(Ok(())),
            }
        }
    }
}

/// Whatever the stream answers, a call stays in one of its states.
pub proof fn lemma_run_keeps_wf(call: LogCall, answers: Seq<bool>)
    requires
        call.wf(),
    ensures
        call.run(answers).wf(),
        call.run(answers).level == call.level,
    decreases answers.len(),
{
    if answers.len() > 0 {
        lemma_run_keeps_wf(call.step(answers[0]), answers.drop_first());
    }
}

/// A call is over after three answers at the latest, and further answers
/// change nothing.
pub proof fn lemma_three_answers_finish(level: Level, answers: Seq<bool>)
    requires
        answers.len() >= 3,
    ensures
        LogCall::start(level).run(answers).phase == Phase::Finished,
        LogCall::start(level).run(answers) == LogCall::start(level).run(answers.take(3)),
{
    let s0 = LogCall::start(level);
    let s1 = s0.step(answers[0]);
    let r1 = answers.drop_first();
    let s2 = s1.step(r1[0]);
    let r2 = r1.drop_first();
    let s3 = s2.step(r2[0]);
    let r3 = r2.drop_first();
    assert(s0.run(answers) == s1.run(r1));
    assert(s1.run(r1) == s2.run(r2));
    assert(s2.run(r2) == s3.run(r3));
    assert(s3.phase == Phase::Finished);
    lemma_finished_stays(s3, r3);
    let t = answers.take(3);
    let t1 = t.drop_first();
    let t2 = t1.drop_first();
    let t3 = t2.drop_first();
    assert(t[0] == answers[0] && t1[0] == r1[0] && t2[0] == r2[0]);
    assert(t3.len() == 0);
    assert(s0.run(t) == s1.run(t1));
    assert(s1.run(t1) == s2.run(t2));
    assert(s2.run(t2) == s3.run(t3));
}

/// Once a call is over no answer changes it.
pub proof fn lemma_finished_stays(call: LogCall, answers: Seq<bool>)
    requires
        call.phase == Phase::Finished,
    ensures
        call.run(answers) == call,
    decreases answers.len(),
{
    if answers.len() > 0 {
        lemma_finished_stays(call.step(answers[0]), answers.drop_first());
    }
}

/// Once a call is over the stream takes nothing more of it.
pub proof fn lemma_finished_takes_nothing(call: LogCall, answers: Seq<bool>, message: Seq<char>)
    requires
        call.phase == Phase::Finished,
    ensures
        call.taken(answers, message) == Seq::<char>::empty(),
    decreases answers.len(),
{
    if answers.len() > 0 {
        lemma_finished_takes_nothing(call.step(answers[0]), answers.drop_first(), message);
        assert(call.taken(answers, message) =~= Seq::<char>::empty());
    }
}

/// A call whose line the stream refused has still sent the reset: what the
/// stream took is the style and, right behind it, the reset.
pub proof fn lemma_refused_line_is_followed_by_reset(level: Level, message: Seq<char>)
    ensures
        LogCall::start(level).taken(seq![true, false, true], message) == style_text(
            level.style_of(),
        ) + reset_text(),
        LogCall::start(level).run(seq![true, false, true]).outcome_of() == Some(
            Err::<(), Failure>(Failure::Write),
        ),
        !LogCall::start(level).run(seq![true, false, true]).styled,
{
    let answers = seq![true, false, true];
    let s0 = LogCall::start(level);
    let r1 = answers.drop_first();
    let s1 = s0.step(true);
    let r2 = r1.drop_first();
    let s2 = s1.step(false);
    let r3 = r2.drop_first();
    let s3 = s2.step(true);
    assert(r3.len() == 0);
    assert(s0.run(answers) == s1.run(r1));
    assert(s1.run(r1) == s2.run(r2));
    assert(s2.run(r2) == s3.run(r3));
    assert(s3.taken(r3, message) =~= Seq::<char>::empty());
    assert(s2.taken(r2, message) =~= reset_text());
    assert(s1.taken(r1, message) =~= reset_text());
    assert(s0.taken(answers, message) =~= style_text(level.style_of()) + reset_text());
}

/// No call leaks its style. Whatever the stream answered, line refused or
/// not: once the call is over and did not end on a refused reset, the stream
/// is in its default style.
pub proof fn lemma_finished_call_leaves_default_style(level: Level, answers: Seq<bool>)
    ensures
        ({
            let end = LogCall::start(level).run(answers);
            end.phase == Phase::Finished && end.failure != Some(Failure::Reset) ==> !end.styled
        }),
{
    lemma_run_keeps_wf(LogCall::start(level), answers);
}

/// Once the style is taken, the reset follows the line whatever became of the
/// line, and a reset that is taken leaves the stream unstyled.
pub proof fn lemma_reset_follows_every_write(call: LogCall, line_sent: bool)
    requires
        call.wf(),
        call.phase == Phase::Write,
    ensures
        call.step(line_sent).phase == Phase::Reset,
        call.step(line_sent).step(true).phase == Phase::Finished,
        !call.step(line_sent).step(true).styled,
        call.step(line_sent).step(true).outcome_of() == Some(
            if line_sent {
                Ok::<(), Failure>(())
            } else {
                Err::<(), Failure>(Failure::Write)
            },
        ),
{
}

} // verus!
