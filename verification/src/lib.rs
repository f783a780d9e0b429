//! A small console logger: six severities, one colour preset for each, and the
//! text of a log event as it is sent to an ANSI terminal.
//!
//! The crate renders; it neither prints nor reads the clock. [`ConsoleWriter`]
//! collects what a terminal would receive, [`LogCall`] tells a caller that
//! owns a real stream what to send next and what to do when the stream
//! refuses it, and the stamped events take the moment they happened from
//! their caller.

pub mod level;
pub mod line;
pub mod ansi;
pub mod protocol;
pub mod writer;
pub mod stamp;
pub mod event;

pub use level::{Foreground, Level, Style};
pub use protocol::{Failure, LogCall, Phase};
pub use writer::ConsoleWriter;
pub use event::{debug, error, fatal, info, trace, warn};
