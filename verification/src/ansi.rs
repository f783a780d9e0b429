//! The escape sequences by which an ANSI terminal is told to change its
//! style. The sequences themselves are produced by `termcolor`; this module
//! says which they are.

use vstd::prelude::*;
use crate::level::{Foreground, Level, Style};

verus! {

/// The character that opens every escape sequence.
pub open spec fn esc() -> char {
    '\x1b'
}

/// `ESC [ 0 m`: back to the terminal's default style.
pub open spec fn reset_text() -> Seq<char> {
    seq![esc(), '[', '0', 'm']
}

/// `ESC [ 1 m`: bold.
pub open spec fn bold_text() -> Seq<char> {
    seq![esc(), '[', '1', 'm']
}

/// `ESC [ 2 m`: dimmed.
pub open spec fn dimmed_text() -> Seq<char> {
    seq![esc(), '[', '2', 'm']
}

/// The sequence that sets the foreground colour: `ESC [ 3 c m` for a colour
/// of the basic palette, `ESC [ 3 8 ; 5 ; n m` for its intense variant, and
/// nothing at all where no colour is asked for.
pub open spec fn foreground_text(fg: Foreground, intense: bool) -> Seq<char> {
    match fg {
        Foreground::Default => Seq::empty(),
        Foreground::Blue => if intense {
            seq![esc(), '[', '3', '8', ';', '5', ';', '1', '2', 'm']
        } else {
            seq![esc(), '[', '3', '4', 'm']
        },
        Foreground::Green => if intense {
            seq![esc(), '[', '3', '8', ';', '5', ';', '1', '0', 'm']
        } else {
            seq![esc(), '[', '3', '2', 'm']
        },
        Foreground::Yellow => if intense {
            seq![esc(), '[', '3', '8', ';', '5', ';', '1', '1', 'm']
        } else {
            seq![esc(), '[', '3', '3', 'm']
        },
        Foreground::Red => if intense {
            seq![esc(), '[', '3', '8', ';', '5', ';', '9', 'm']
        } else {
            seq![esc(), '[', '3', '1', 'm']
        },
    }
}

/// What a terminal is sent to put it into a style: a reset, so that nothing
/// of an earlier style is inherited, then the weight, then the colour.
pub open spec fn style_text(style: Style) -> Seq<char> {
    reset_text() + (if style.bold {
        bold_text()
    } else {
        Seq::empty()
    }) + (if style.dimmed {
        dimmed_text()
    } else {
        Seq::empty()
    }) + foreground_text(style.fg, style.intense)
}

/// Calls `termcolor::WriteColor::set_color` on a `termcolor::Ansi` writer
/// over an empty buffer, with a fresh `termcolor::ColorSpec` that carries the
/// four fields of `style`, and hands back what the writer put into the
/// buffer. Trusted: that these are the sequences of [`style_text`], in that
/// order, as the source of `termcolor` writes them.
#[verifier::external_body]
pub(crate) fn ansi_set_color(style: Style) -> (text: String)
    ensures
        text@ == style_text(style),
{
    let fg = match style.fg {
        Foreground::Default => None,
        Foreground::Blue => Some(termcolor::Color::Blue),
        Foreground::Green => Some(termcolor::Color::Green),
        Foreground::Yellow => Some(termcolor::Color::Yellow),
        Foreground::Red => Some(termcolor::Color::Red),
    };
    let mut spec = termcolor::ColorSpec::new();
    spec.set_fg(fg).set_bold(style.bold).set_intense(style.intense).set_dimmed(style.dimmed);
    let mut out = termcolor::Ansi::new(Vec::new());
    termcolor::WriteColor::set_color(&mut out, &spec).unwrap();
    String::from_utf8(out.into_inner()).unwrap()
}

/// Calls `termcolor::WriteColor::reset` on a `termcolor::Ansi` writer over an
/// empty buffer and hands back what the writer put into the buffer. Trusted:
/// that this is the one sequence `ESC [ 0 m`.
#[verifier::external_body]
pub(crate) fn ansi_reset() -> (text: String)
    ensures
        text@ == reset_text(),
{
    let mut out = termcolor::Ansi::new(Vec::new());
    termcolor::WriteColor::reset(&mut out).unwrap();
    String::from_utf8(out.into_inner()).unwrap()
}

/// Whether a foreground colour is set by a sequence that starts at `at`.
pub open spec fn sets_foreground_at(text: Seq<char>, at: int) -> bool {
    &&& 0 <= at
    &&& at + 2 < text.len()
    &&& text[at] == esc()
    &&& text[at + 1] == '['
    &&& text[at + 2] == '3'
}

/// Where in the style of a level the sequence stands that sets the
/// foreground colour: it is the last one.
pub open spec fn foreground_start(level: Level) -> int {
    style_text(level.style_of()).len() - foreground_text(
        level.style_of().fg,
        level.style_of().intense,
    ).len()
}

/// Whether an escape sequence starts at `at`.
pub open spec fn escape_at(text: Seq<char>, at: int) -> bool {
    0 <= at < text.len() && text[at] == esc()
}

/// The style of `INFO` sets no foreground colour: all that is sent for it is
/// the reset.
pub proof fn lemma_info_sets_no_foreground()
    ensures
        style_text(Level::INFO.style_of()) == reset_text(),
        forall|at: int| !sets_foreground_at(style_text(Level::INFO.style_of()), at),
{
    assert(style_text(Level::INFO.style_of()) =~= reset_text());
}

/// The style of every level but `INFO` sets the foreground colour exactly
/// once, with the last of its sequences: a foreground colour is set at one
/// place of the text and at no other. Every escape character in it is
/// followed by at least two more characters of the style itself.
pub proof fn lemma_colored_levels_set_foreground_once(level: Level)
    requires
        level != Level::INFO,
    ensures
        level.style_of().fg != Foreground::Default,
        forall|at: int|
            sets_foreground_at(style_text(level.style_of()), at) <==> at == foreground_start(level),
        forall|at: int| #[trigger]
            escape_at(style_text(level.style_of()), at) ==> at + 2 < style_text(
                level.style_of(),
            ).len(),
        style_text(level.style_of()).last() == 'm',
{
    let text = style_text(level.style_of());
    match level {
        Level::TRACE => {
            assert(text =~= seq![esc(), '[', '0', 'm', esc(), '[', '1', 'm', esc(), '[', '3', '4', 'm']);
        },
        Level::DEBUG => {
            assert(text =~= seq![esc(), '[', '0', 'm', esc(), '[', '1', 'm', esc(), '[', '3', '2', 'm']);
        },
        Level::INFO => {},
        Level::WARN => {
            assert(text =~= seq![esc(), '[', '0', 'm', esc(), '[', '1', 'm', esc(), '[', '3', '3', 'm']);
        },
        Level::ERROR => {
            assert(text =~= seq![
                esc(), '[', '0', 'm', esc(), '[', '3', '8', ';', '5', ';', '9', 'm',
            ]);
        },
        Level::FATAL => {
            assert(text =~= seq![esc(), '[', '0', 'm', esc(), '[', '1', 'm', esc(), '[', '3', '1', 'm']);
        },
    }
}

/// The text as a terminal shows it, without its escape sequences: whatever
/// stands from an escape character up to the next `m`, both included, is
/// left out. `inside` tells whether the text starts within such a sequence.
pub open spec fn visible_text(text: Seq<char>, inside: bool) -> Seq<char>
    decreases text.len(),
{
    if text.len() == 0 {
        Seq::empty()
    } else if inside {
        visible_text(text.drop_first(), text[0] != 'm')
    } else if text[0] == esc() {
        visible_text(text.drop_first(), true)
    } else {
        seq![text[0]] + visible_text(text.drop_first(), false)
    }
}

/// Whether a text holds no escape character.
pub open spec fn escape_free(text: Seq<char>) -> bool {
    forall|i: int| 0 <= i < text.len() ==> text[i] != esc()
}

/// A text without escape characters is shown as it is, and what follows it
/// is shown as if it stood alone.
pub proof fn lemma_visible_after_plain(plain: Seq<char>, rest: Seq<char>)
    requires
        escape_free(plain),
    ensures
        visible_text(plain + rest, false) == plain + visible_text(rest, false),
    decreases plain.len(),
{
    if plain.len() == 0 {
        assert(plain + rest =~= rest);
        assert(plain + visible_text(rest, false) =~= visible_text(rest, false));
    } else {
        let tail = plain.drop_first();
        assert(plain[0] != esc());
        assert forall|i: int| 0 <= i < tail.len() implies tail[i] != esc() by {
            assert(tail[i] == plain[i + 1]);
        }
        lemma_visible_after_plain(tail, rest);
        assert((plain + rest).drop_first() =~= tail + rest);
        assert((plain + rest)[0] == plain[0]);
        assert(seq![plain[0]] + (tail + visible_text(rest, false)) =~= plain + visible_text(
            rest,
            false,
        ));
    }
}

/// Within an escape sequence nothing is shown up to its closing `m`.
proof fn lemma_visible_inside(body: Seq<char>, rest: Seq<char>)
    requires
        forall|i: int| 0 <= i < body.len() ==> body[i] != 'm',
    ensures
        visible_text(body + seq!['m'] + rest, true) == visible_text(rest, false),
    decreases body.len(),
{
    let text = body + seq!['m'] + rest;
    if body.len() == 0 {
        assert(text[0] == 'm');
        assert(text.drop_first() =~= rest);
    } else {
        let tail = body.drop_first();
        assert(body[0] != 'm');
        assert forall|i: int| 0 <= i < tail.len() implies tail[i] != 'm' by {
            assert(tail[i] == body[i + 1]);
        }
        lemma_visible_inside(tail, rest);
        assert(text[0] == body[0]);
        assert(text.drop_first() =~= tail + seq!['m'] + rest);
    }
}

/// One escape sequence, from the escape character to the first `m`, shows
/// nothing, and what follows it is shown as if it stood alone.
pub proof fn lemma_visible_after_sequence(body: Seq<char>, rest: Seq<char>)
    requires
        forall|i: int| 0 <= i < body.len() ==> body[i] != 'm',
    ensures
        visible_text(seq![esc()] + body + seq!['m'] + rest, false) == visible_text(rest, false),
{
    let text = seq![esc()] + body + seq!['m'] + rest;
    assert(text[0] == esc());
    assert(text.drop_first() =~= body + seq!['m'] + rest);
    lemma_visible_inside(body, rest);
}

/// The sequences of a style show nothing: a text behind them is shown as if
/// it stood alone.
pub proof fn lemma_style_is_invisible(style: Style, rest: Seq<char>)
    ensures
        visible_text(style_text(style) + rest, false) == visible_text(rest, false),
{
    let fg = foreground_text(style.fg, style.intense);
    let after_fg = visible_text(rest, false);
    assert(visible_text(fg + rest, false) == after_fg) by {
        if style.fg == Foreground::Default {
            assert(fg + rest =~= rest);
        } else {
            let body = fg.subrange(1, fg.len() - 1);
            assert(fg =~= seq![esc()] + body + seq!['m']);
            assert(fg + rest =~= seq![esc()] + body + seq!['m'] + rest);
            lemma_visible_after_sequence(body, rest);
        }
    }
    let dimmed = if style.dimmed {
        dimmed_text()
    } else {
        Seq::empty()
    };
    assert(visible_text(dimmed + (fg + rest), false) == after_fg) by {
        if style.dimmed {
            assert(dimmed + (fg + rest) =~= seq![esc()] + seq!['[', '2'] + seq!['m'] + (fg + rest));
            lemma_visible_after_sequence(seq!['[', '2'], fg + rest);
        } else {
            assert(dimmed + (fg + rest) =~= fg + rest);
        }
    }
    let bold = if style.bold {
        bold_text()
    } else {
        Seq::empty()
    };
    let tail = dimmed + (fg + rest);
    assert(visible_text(bold + tail, false) == after_fg) by {
        if style.bold {
            assert(bold + tail =~= seq![esc()] + seq!['[', '1'] + seq!['m'] + tail);
            lemma_visible_after_sequence(seq!['[', '1'], tail);
        } else {
            assert(bold + tail =~= tail);
        }
    }
    lemma_reset_is_invisible(bold + tail);
    assert(style_text(style) + rest =~= reset_text() + (bold + tail));
}

/// The reset shows nothing: a text behind it is shown as if it stood alone.
pub proof fn lemma_reset_is_invisible(rest: Seq<char>)
    ensures
        visible_text(reset_text() + rest, false) == visible_text(rest, false),
{
    assert(reset_text() + rest =~= seq![esc()] + seq!['[', '0'] + seq!['m'] + rest);
    lemma_visible_after_sequence(seq!['[', '0'], rest);
}

} // verus!
