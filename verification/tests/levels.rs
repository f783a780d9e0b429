use rall::{Foreground, Level, Style};

fn style(fg: Foreground, bold: bool, intense: bool, dimmed: bool) -> Style {
    Style { fg, bold, intense, dimmed }
}

#[test]
fn labels_are_the_six_literals() {
    assert_eq!(Level::TRACE.label(), "TRACE");
    assert_eq!(Level::DEBUG.label(), "DEBUG");
    assert_eq!(Level::INFO.label(), "INFO");
    assert_eq!(Level::WARN.label(), "WARN");
    assert_eq!(Level::ERROR.label(), "ERROR");
    assert_eq!(Level::FATAL.label(), "FATAL");
}

#[test]
fn labels_have_no_padding_and_no_brackets() {
    for level in Level::all() {
        let label = level.label();
        assert_eq!(label.trim(), label);
        assert!(label.chars().all(|c| c.is_ascii_uppercase()));
    }
}

#[test]
fn to_string_shows_the_label() {
    for level in Level::all() {
        assert_eq!(level.to_string(), level.label());
    }
    assert_eq!(Level::WARN.to_string(), String::from("WARN"));
}

#[test]
fn all_lists_the_levels_by_rank() {
    let levels = Level::all();
    assert_eq!(
        levels,
        [Level::TRACE, Level::DEBUG, Level::INFO, Level::WARN, Level::ERROR, Level::FATAL]
    );
    for (i, level) in levels.iter().enumerate() {
        assert_eq!(level.rank() as usize, i);
    }
}

#[test]
fn rank_rises_with_urgency() {
    assert_eq!(Level::TRACE.rank(), 0);
    assert_eq!(Level::DEBUG.rank(), 1);
    assert_eq!(Level::INFO.rank(), 2);
    assert_eq!(Level::WARN.rank(), 3);
    assert_eq!(Level::ERROR.rank(), 4);
    assert_eq!(Level::FATAL.rank(), 5);
}

#[test]
fn styles_follow_the_table() {
    assert_eq!(Level::TRACE.style(), style(Foreground::Blue, true, false, false));
    assert_eq!(Level::DEBUG.style(), style(Foreground::Green, true, false, false));
    assert_eq!(Level::INFO.style(), style(Foreground::Default, false, false, false));
    assert_eq!(Level::WARN.style(), style(Foreground::Yellow, true, false, false));
    assert_eq!(Level::ERROR.style(), style(Foreground::Red, false, true, false));
    assert_eq!(Level::FATAL.style(), style(Foreground::Red, true, false, false));
}

#[test]
fn no_style_is_dimmed() {
    for level in Level::all() {
        assert!(!level.style().dimmed);
    }
}

#[test]
fn only_info_has_no_colour() {
    for level in Level::all() {
        assert_eq!(level.style().fg == Foreground::Default, level == Level::INFO);
    }
}

#[test]
fn levels_compare_by_urgency() {
    let levels = Level::all();
    for a in levels {
        for b in levels {
            assert_eq!(a < b, a.rank() < b.rank());
            assert_eq!(a == b, a.rank() == b.rank());
        }
    }
    assert!(Level::TRACE < Level::FATAL);
    assert!(Level::WARN < Level::ERROR);
}
