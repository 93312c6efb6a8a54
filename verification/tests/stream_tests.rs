use ccat::options::PrintOptions;
use ccat::stream::{cat_lines, cat_sources, LineState};

fn plain() -> PrintOptions {
    PrintOptions::default()
}

fn lines(items: &[&str]) -> Vec<String> {
    items.iter().map(|s| s.to_string()).collect()
}

#[test]
fn squeeze_and_number_scenario() {
    let options = PrintOptions { squeeze_blank: true, number_line: true, ..plain() };
    let out = cat_lines(&lines(&["hello", "", "", "world"]), &options);
    assert_eq!(out, "     1\thello\n     2\t\n     3\tworld\n");
}

#[test]
fn single_line_passes_through() {
    for line in ["L", "hello world", "", "tab\there", "ends with $", "  spaced  "] {
        let out = cat_lines(&lines(&[line]), &plain());
        assert_eq!(out, format!("{}\n", line));
    }
}

#[test]
fn empty_source_gives_no_output() {
    assert_eq!(cat_lines(&Vec::new(), &plain()), "");
    let all = PrintOptions {
        number_nonblank: true,
        show_ends: true,
        number_line: true,
        squeeze_blank: true,
        show_tabs: true,
        show_nonprinting: true,
    };
    assert_eq!(cat_lines(&Vec::new(), &all), "");
}

#[test]
fn numbering_is_sequential() {
    let options = PrintOptions { number_line: true, ..plain() };
    let out = cat_lines(&lines(&["a", "b", "c"]), &options);
    assert_eq!(out, "     1\ta\n     2\tb\n     3\tc\n");
    let many: Vec<String> = (0..12).map(|i| format!("line {}", i)).collect();
    let out = cat_lines(&many, &options);
    let mut expected = String::new();
    for (i, line) in many.iter().enumerate() {
        expected.push_str(&format!("{:>6}\t{}\n", i + 1, line));
    }
    assert_eq!(out, expected);
}

#[test]
fn numbering_counts_blank_lines_too() {
    let options = PrintOptions { number_line: true, ..plain() };
    let out = cat_lines(&lines(&["a", "", "b"]), &options);
    assert_eq!(out, "     1\ta\n     2\t\n     3\tb\n");
}

#[test]
fn number_nonblank_skips_blank_lines() {
    let options = PrintOptions { number_nonblank: true, number_line: true, ..plain() };
    let out = cat_lines(&lines(&["a", "", "b", "", "", "c"]), &options);
    assert_eq!(out, "     1\ta\n\n     2\tb\n\n\n     3\tc\n");
}

#[test]
fn number_nonblank_with_squeeze() {
    let options =
        PrintOptions { number_nonblank: true, number_line: true, squeeze_blank: true, ..plain() };
    let out = cat_lines(&lines(&["", "", "a", "", "", "", "b"]), &options);
    assert_eq!(out, "\n     1\ta\n\n     2\tb\n");
}

#[test]
fn squeeze_collapses_runs_of_blank_lines() {
    let options = PrintOptions { squeeze_blank: true, ..plain() };
    assert_eq!(cat_lines(&lines(&["a", "", "", "", "b"]), &options), "a\n\nb\n");
    assert_eq!(cat_lines(&lines(&["a", "", "", "b", "", "", "", "", "c"]), &options), "a\n\nb\n\nc\n");
    assert_eq!(cat_lines(&lines(&["", "", ""]), &options), "\n");
    assert_eq!(cat_lines(&lines(&["a", "", ""]), &options), "a\n\n");
}

#[test]
fn squeeze_keeps_single_blank_lines() {
    let options = PrintOptions { squeeze_blank: true, ..plain() };
    assert_eq!(cat_lines(&lines(&["a", "", "b", "", "c"]), &options), "a\n\nb\n\nc\n");
    assert_eq!(cat_lines(&lines(&["", "a"]), &options), "\na\n");
}

#[test]
fn without_squeeze_blank_runs_stay() {
    assert_eq!(cat_lines(&lines(&["a", "", "", "b"]), &plain()), "a\n\n\nb\n");
}

#[test]
fn squeezed_run_equals_its_first_line() {
    let options = PrintOptions { squeeze_blank: true, number_line: true, show_ends: true, ..plain() };
    let long = cat_lines(&lines(&["x", "", "", "", "", "y", "z"]), &options);
    let short = cat_lines(&lines(&["x", "", "y", "z"]), &options);
    assert_eq!(long, short);
    assert_eq!(long, "     1\tx$\n     2\t$\n     3\ty$\n     4\tz$\n");
}

#[test]
fn show_tabs_in_a_source() {
    let options = PrintOptions { show_tabs: true, ..plain() };
    assert_eq!(cat_lines(&lines(&["a\tb", "\t", "c"]), &options), "a^Ib\n^I\nc\n");
}

#[test]
fn show_ends_marks_every_written_line() {
    let options = PrintOptions { show_ends: true, ..plain() };
    assert_eq!(cat_lines(&lines(&["a", "", "b"]), &options), "a$\n$\nb$\n");
    let squeezing = PrintOptions { show_ends: true, squeeze_blank: true, ..plain() };
    assert_eq!(cat_lines(&lines(&["a", "", "", "b"]), &squeezing), "a$\n$\nb$\n");
}

#[test]
fn show_ends_leaves_bare_blank_lines_under_number_nonblank() {
    let options = PrintOptions { show_ends: true, number_nonblank: true, ..plain() };
    assert_eq!(cat_lines(&lines(&["a", "", "b"]), &options), "a$\n\nb$\n");
}

#[test]
fn sources_are_processed_one_after_another() {
    let options = PrintOptions { number_line: true, squeeze_blank: true, ..plain() };
    let a = lines(&["one", "", ""]);
    let b = lines(&["", "two"]);
    let both = cat_sources(&vec![a.clone(), b.clone()], &options);
    let apart = format!("{}{}", cat_lines(&a, &options), cat_lines(&b, &options));
    assert_eq!(both, apart);
    assert_eq!(both, "     1\tone\n     2\t\n     1\t\n     2\ttwo\n");
    let each = format!(
        "{}{}",
        cat_sources(&vec![a.clone()], &options),
        cat_sources(&vec![b.clone()], &options)
    );
    assert_eq!(both, each);
}

#[test]
fn no_sources_no_output() {
    assert_eq!(cat_sources(&Vec::new(), &plain()), "");
}

#[test]
fn state_starts_at_line_one() {
    let state = LineState::new();
    assert_eq!(state, LineState { line_number: 1, prev_was_blank: false });
}

#[test]
fn feed_moves_the_state() {
    let options = PrintOptions { number_line: true, squeeze_blank: true, ..plain() };
    let mut state = LineState::new();
    assert_eq!(state.feed("hello", &options), Some("     1\thello\n".to_string()));
    assert_eq!(state, LineState { line_number: 2, prev_was_blank: false });
    assert_eq!(state.feed("", &options), Some("     2\t\n".to_string()));
    assert_eq!(state, LineState { line_number: 3, prev_was_blank: true });
    assert_eq!(state.feed("", &options), None);
    assert_eq!(state, LineState { line_number: 3, prev_was_blank: true });
    assert_eq!(state.feed("world", &options), Some("     3\tworld\n".to_string()));
    assert_eq!(state, LineState { line_number: 4, prev_was_blank: false });
}

#[test]
fn feed_keeps_the_number_on_bare_blank_lines() {
    let options = PrintOptions { number_nonblank: true, number_line: true, ..plain() };
    let mut state = LineState { line_number: 41, prev_was_blank: false };
    assert_eq!(state.feed("", &options), Some("\n".to_string()));
    assert_eq!(state, LineState { line_number: 41, prev_was_blank: true });
    assert_eq!(state.feed("x", &options), Some("    41\tx\n".to_string()));
    assert_eq!(state, LineState { line_number: 42, prev_was_blank: false });
}

#[test]
fn feed_counts_lines_even_when_numbers_are_not_shown() {
    let mut state = LineState::new();
    assert_eq!(state.feed("a", &plain()), Some("a\n".to_string()));
    assert_eq!(state.feed("b", &plain()), Some("b\n".to_string()));
    assert_eq!(state.line_number, 3);
}

#[test]
fn feeding_line_by_line_equals_the_whole_source() {
    let options = PrintOptions {
        number_nonblank: false,
        show_ends: true,
        number_line: true,
        squeeze_blank: true,
        show_tabs: true,
        show_nonprinting: false,
    };
    let source = lines(&["a\tb", "", "", "", "c", "", "d"]);
    let mut state = LineState::new();
    let mut out = String::new();
    for line in &source {
        if let Some(text) = state.feed(line, &options) {
            out.push_str(&text);
        }
    }
    assert_eq!(out, cat_lines(&source, &options));
    assert_eq!(out, "     1\ta^Ib$\n     2\t$\n     3\tc$\n     4\t$\n     5\td$\n");
}
