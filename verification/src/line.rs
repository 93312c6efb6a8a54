//! Rendering of one line under a set of display options.

use crate::options::PrintOptions;
use crate::text::{format_label, is_blank, is_blank_line, line_label, replace_tabs, visible_tabs};
use vstd::prelude::*;
use vstd::string::StringExecFns;

verus! {

/// Whether a line that is written uses up a line number. Every line does,
/// except a blank one while only non-blank lines are numbered.
pub open spec fn takes_number(line: Seq<char>, options: PrintOptions) -> bool {
    !(options.number_nonblank && is_blank(line))
}

/// The text written for a line that carries the number `n`.
///
/// A blank line while only non-blank lines are numbered is written as a bare
/// line feed. Any other line is written as its label (if lines are numbered),
/// its body (with tabs made visible if asked for), the end marker `$` (if
/// asked for) and a line feed.
pub open spec fn rendered_line(line: Seq<char>, n: nat, options: PrintOptions) -> Seq<char> {
    if !takes_number(line, options) {
        seq!['\n']
    } else {
        let label = if options.number_line {
            line_label(n)
        } else {
            Seq::empty()
        };
        let body = if options.show_tabs {
            visible_tabs(line)
        } else {
            line
        };
        let end = if options.show_ends {
            seq!['$']
        } else {
            Seq::empty()
        };
        label + body + end + seq!['\n']
    }
}

/// Renders one line. Returns the text to write and whether the line used up
/// its number, so that the next line is to carry the following one.
pub fn output_line(line: &str, line_number: usize, options: &PrintOptions) -> (res: (String, bool))
    ensures
        res.0@ == rendered_line(line@, line_number as nat, *options),
        res.1 == takes_number(line@, *options),
{
    let mut out = String::new();
    if options.number_nonblank && is_blank_line(line) {
        out.push('\n');
        assert(out@ == seq!['\n']);
        return (out, false);
    }
    if options.number_line {
        out = format_label(line_number);
    }
    let ghost label = out@;
    if options.show_tabs {
        let new_line = replace_tabs(line);
        out.append(new_line.as_str());
    } else {
        out.append(line);
    }
    let ghost body = out@;
    if options.show_ends {
        out.push('$');
    }
    out.push('\n');
    proof {
        let text = if options.show_tabs {
            visible_tabs(line@)
        } else {
            line@
        };
        assert(body == label + text);
        if options.show_ends {
            assert(out@ == label + text + seq!['$'] + seq!['\n']);
        } else {
            assert(out@ == label + text + Seq::<char>::empty() + seq!['\n']);
        }
    }
    (out, true)
}

} // verus!
