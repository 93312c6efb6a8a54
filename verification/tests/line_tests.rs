use ccat::line::output_line;
use ccat::options::PrintOptions;
use ccat::text::{format_label, is_blank_line, replace_tabs, LABEL_WIDTH};

fn plain() -> PrintOptions {
    PrintOptions::default()
}

#[test]
fn label_is_right_justified_in_six_columns() {
    assert_eq!(LABEL_WIDTH, 6);
    assert_eq!(format_label(0), "     0\t");
    assert_eq!(format_label(1), "     1\t");
    assert_eq!(format_label(9), "     9\t");
    assert_eq!(format_label(10), "    10\t");
    assert_eq!(format_label(42), "    42\t");
    assert_eq!(format_label(99999), " 99999\t");
    assert_eq!(format_label(999999), "999999\t");
}

#[test]
fn label_wider_than_field_is_kept_whole() {
    assert_eq!(format_label(1000000), "1000000\t");
    assert_eq!(format_label(1234567890), "1234567890\t");
}

#[test]
fn label_matches_std_formatting() {
    for n in [0usize, 5, 17, 100, 4096, 65535, 123456, 7654321, usize::MAX] {
        assert_eq!(format_label(n), format!("{:>6}\t", n));
    }
}

#[test]
fn blank_means_nothing_but_line_feeds() {
    assert!(is_blank_line(""));
    assert!(is_blank_line("\n"));
    assert!(is_blank_line("\n\n\n"));
    assert!(!is_blank_line(" "));
    assert!(!is_blank_line("\t"));
    assert!(!is_blank_line("a"));
    assert!(!is_blank_line("a\n"));
    assert!(!is_blank_line("\na"));
    assert!(!is_blank_line("\r"));
}

#[test]
fn tabs_become_caret_i() {
    assert_eq!(replace_tabs(""), "");
    assert_eq!(replace_tabs("\t"), "^I");
    assert_eq!(replace_tabs("a\tb"), "a^Ib");
    assert_eq!(replace_tabs("\t\tx\t"), "^I^Ix^I");
    assert_eq!(replace_tabs("no tabs here"), "no tabs here");
}

#[test]
fn tabs_leave_other_characters_alone() {
    assert_eq!(replace_tabs("^I"), "^I");
    assert_eq!(replace_tabs("h\u{e9}llo\tw\u{f6}rld \u{1f600}"), "h\u{e9}llo^Iw\u{f6}rld \u{1f600}");
    assert_eq!(replace_tabs("a b\r"), "a b\r");
    for line in ["x\ty", "\t", "abc", "\tq\t\t"] {
        assert_eq!(replace_tabs(line), line.replace("\t", "^I"));
    }
}

#[test]
fn plain_line_is_written_verbatim() {
    assert_eq!(output_line("hello", 1, &plain()), ("hello\n".to_string(), true));
    assert_eq!(output_line("a\tb $", 7, &plain()), ("a\tb $\n".to_string(), true));
    assert_eq!(output_line("", 3, &plain()), ("\n".to_string(), true));
}

#[test]
fn numbered_line_carries_its_label() {
    let options = PrintOptions { number_line: true, ..plain() };
    assert_eq!(output_line("hello", 1, &options), ("     1\thello\n".to_string(), true));
    assert_eq!(output_line("", 12, &options), ("    12\t\n".to_string(), true));
}

#[test]
fn end_marker_stands_before_the_line_feed() {
    let options = PrintOptions { show_ends: true, ..plain() };
    assert_eq!(output_line("hello", 1, &options), ("hello$\n".to_string(), true));
    assert_eq!(output_line("", 1, &options), ("$\n".to_string(), true));
}

#[test]
fn all_rules_together() {
    let options = PrintOptions {
        number_nonblank: false,
        show_ends: true,
        number_line: true,
        squeeze_blank: true,
        show_tabs: true,
        show_nonprinting: true,
    };
    assert_eq!(output_line("a\tb", 3, &options), ("     3\ta^Ib$\n".to_string(), true));
}

#[test]
fn blank_line_under_number_nonblank_is_bare() {
    let options = PrintOptions {
        number_nonblank: true,
        show_ends: true,
        number_line: true,
        squeeze_blank: false,
        show_tabs: true,
        show_nonprinting: false,
    };
    assert_eq!(output_line("", 5, &options), ("\n".to_string(), false));
    assert_eq!(output_line("x", 5, &options), ("     5\tx$\n".to_string(), true));
}

#[test]
fn number_nonblank_alone_shows_no_number() {
    let options = PrintOptions { number_nonblank: true, ..plain() };
    assert_eq!(output_line("x", 1, &options), ("x\n".to_string(), true));
    assert_eq!(output_line("", 1, &options), ("\n".to_string(), false));
}

#[test]
fn show_nonprinting_changes_nothing() {
    let options = PrintOptions { show_nonprinting: true, ..plain() };
    assert_eq!(output_line("a\u{1}b\u{7f}", 1, &options), ("a\u{1}b\u{7f}\n".to_string(), true));
}
