//! Severities, their labels and their styles.

use vstd::prelude::*;

verus! {

/// Represents all the possible logging levels, from the most detailed to the
/// most urgent:
///
/// **TRACE**,
/// **DEBUG**,
/// **INFO**,
/// **WARN**,
/// **ERROR**,
/// **FATAL**
///
/// The levels compare by urgency: `TRACE < DEBUG < INFO < WARN < ERROR <
/// FATAL`, as [`Level::rank`] numbers them.
#[derive(Clone, Copy, Debug, PartialEq, Eq, Structural, PartialOrd, Ord, Hash)]
pub enum Level {
    /// For fine-grained information, only within rare cases where full
    /// visibility of what is happening in an application is needed.
    TRACE,
    /// Less granular than [`TRACE`](Level::TRACE) but still more than what is
    /// needed for normal use: for diagnosing issues and troubleshooting.
    DEBUG,
    /// Something has happened; purely informational, nothing to investigate.
    INFO,
    /// Something unexpected has happened, but the code can continue to work.
    WARN,
    /// One or more functionalities are prevented from working properly.
    ERROR,
    /// Critical functionality is lost; the program needs urgent attention.
    FATAL,
}

/// The foreground colour that a style asks of the terminal.
#[derive(Clone, Copy, Debug, PartialEq, Eq, Structural, Hash)]
pub enum Foreground {
    /// Whatever the terminal uses when no colour is requested.
    Default,
    Blue,
    Green,
    Yellow,
    Red,
}

/// A foreground colour together with the weight and intensity of the text.
#[derive(Clone, Copy, Debug, PartialEq, Eq, Structural, Hash)]
pub struct Style {
    pub fg: Foreground,
    pub bold: bool,
    pub intense: bool,
    pub dimmed: bool,
}

impl Level {
    /// Position of the level in the order of urgency, `TRACE` being 0.
    pub open spec fn rank_of(self) -> nat {
        match self {
            Level::TRACE => 0,
            Level::DEBUG => 1,
            Level::INFO => 2,
            Level::WARN => 3,
            Level::ERROR => 4,
            Level::FATAL => 5,
        }
    }

    /// The label as a sequence of characters.
    pub open spec fn label_text(self) -> Seq<char> {
        match self {
            Level::TRACE => "TRACE"@,
            Level::DEBUG => "DEBUG"@,
            Level::INFO => "INFO"@,
            Level::WARN => "WARN"@,
            Level::ERROR => "ERROR"@,
            Level::FATAL => "FATAL"@,
        }
    }

    /// The style that belongs to the level.
    pub open spec fn style_of(self) -> Style {
        match self {
            Level::TRACE => Style { fg: Foreground::Blue, bold: true, intense: false, dimmed: false },
            Level::DEBUG => Style { fg: Foreground::Green, bold: true, intense: false, dimmed: false },
            Level::INFO => Style { fg: Foreground::Default, bold: false, intense: false, dimmed: false },
            Level::WARN => Style { fg: Foreground::Yellow, bold: true, intense: false, dimmed: false },
            Level::ERROR => Style { fg: Foreground::Red, bold: false, intense: true, dimmed: false },
            Level::FATAL => Style { fg: Foreground::Red, bold: true, intense: false, dimmed: false },
        }
    }

    /// All six levels in ascending order of urgency.
    pub fn all() -> (levels: [Level; 6])
        ensures
            forall|i: int| 0 <= i < 6 ==> (#[trigger] levels[i]).rank_of() == i,
    {
        [Level::TRACE, Level::DEBUG, Level::INFO, Level::WARN, Level::ERROR, Level::FATAL]
    }

    /// Position of the level in the order of urgency, `TRACE` being 0.
    pub fn rank(&self) -> (r: u8)
        ensures
            r == self.rank_of(),
    {
        match self {
            Level::TRACE => 0,
            Level::DEBUG => 1,
            Level::INFO => 2,
            Level::WARN => 3,
            Level::ERROR => 4,
            Level::FATAL => 5,
        }
    }

    /// The canonical label of the level, in capitals and without padding.
    pub fn label(&self) -> (text: &'static str)
        ensures
            text@ == self.label_text(),
    {
        match self {
            Level::TRACE => "TRACE",
            Level::DEBUG => "DEBUG",
            Level::INFO => "INFO",
            Level::WARN => "WARN",
            Level::ERROR => "ERROR",
            Level::FATAL => "FATAL",
        }
    }

    /// The label as an owned string: what printing the level shows.
    pub fn to_string(&self) -> (text: String)
        ensures
            text@ == self.label_text(),
    {
        String::from_str(self.label())
    }

    /// The colour and weight in which events of this level are shown.
    pub fn style(&self) -> (style: Style)
        ensures
            style == self.style_of(),
    {
        match self {
            Level::TRACE => Style { fg: Foreground::Blue, bold: true, intense: false, dimmed: false },
            Level::DEBUG => Style { fg: Foreground::Green, bold: true, intense: false, dimmed: false },
            Level::INFO => Style { fg: Foreground::Default, bold: false, intense: false, dimmed: false },
            Level::WARN => Style { fg: Foreground::Yellow, bold: true, intense: false, dimmed: false },
            Level::ERROR => Style { fg: Foreground::Red, bold: false, intense: true, dimmed: false },
            Level::FATAL => Style { fg: Foreground::Red, bold: true, intense: false, dimmed: false },
        }
    }
}

/// Every label is spelled out here character by character: capitals only, so
/// no label holds a blank, a bracket or an escape character.
pub proof fn lemma_label_spelling(level: Level)
    ensures
        level == Level::TRACE ==> level.label_text() =~= seq!['T', 'R', 'A', 'C', 'E'],
        level == Level::DEBUG ==> level.label_text() =~= seq!['D', 'E', 'B', 'U', 'G'],
        level == Level::INFO ==> level.label_text() =~= seq!['I', 'N', 'F', 'O'],
        level == Level::WARN ==> level.label_text() =~= seq!['W', 'A', 'R', 'N'],
        level == Level::ERROR ==> level.label_text() =~= seq!['E', 'R', 'R', 'O', 'R'],
        level == Level::FATAL ==> level.label_text() =~= seq!['F', 'A', 'T', 'A', 'L'],
        4 <= level.label_text().len() <= 5,
        forall|i: int|
            0 <= i < level.label_text().len() ==> 'A' <= #[trigger] level.label_text()[i] <= 'Z',
{
    reveal_strlit("TRACE");
    reveal_strlit("DEBUG");
    reveal_strlit("INFO");
    reveal_strlit("WARN");
    reveal_strlit("ERROR");
    reveal_strlit("FATAL");
}

/// The rank tells the levels apart: two levels of one rank are one level.
pub proof fn lemma_rank_is_injective(a: Level, b: Level)
    requires
        a.rank_of() == b.rank_of(),
    ensures
        a == b,
{
}

} // verus!
