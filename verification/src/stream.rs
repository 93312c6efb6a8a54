//! Processing of whole sources: which lines are written, which numbers they
//! carry, and the text that results.
//!
//! A source is modelled as the sequence of its lines, a line as the sequence
//! of its characters. What is written for a line depends on the lines before
//! it in two ways only: on whether the line just before it is blank, and on
//! how many of the lines before it used up a number.

use crate::line::{output_line, rendered_line, takes_number};
use crate::options::PrintOptions;
use crate::text::{is_blank, is_blank_line};
use vstd::prelude::*;
use vstd::string::StringExecFns;

verus! {

/// Whether position `i` of a source comes right after a blank line. The first
/// position never does.
pub open spec fn follows_blank(lines: Seq<Seq<char>>, i: int) -> bool {
    0 < i <= lines.len() && is_blank(lines[i - 1])
}

/// Whether line `i` is dropped: blank lines are being squeezed, the line is
/// blank and so is the line before it.
pub open spec fn squeezed(lines: Seq<Seq<char>>, i: int, options: PrintOptions) -> bool {
    options.squeeze_blank && is_blank(lines[i]) && follows_blank(lines, i)
}

/// Whether line `i` is written and uses up a number.
pub open spec fn numbered(lines: Seq<Seq<char>>, i: int, options: PrintOptions) -> bool {
    !squeezed(lines, i, options) && takes_number(lines[i], options)
}

/// How many of the first `k` lines use up a number.
pub open spec fn numbers_used(lines: Seq<Seq<char>>, k: int, options: PrintOptions) -> nat
    decreases k,
{
    if k <= 0 {
        0
    } else {
        numbers_used(lines, k - 1, options) + if numbered(lines, k - 1, options) {
            1nat
        } else {
            0nat
        }
    }
}

/// The number that line `i` carries if it is written: numbering starts at 1
/// and goes on by one with each line that uses up a number.
pub open spec fn line_number_at(lines: Seq<Seq<char>>, i: int, options: PrintOptions) -> nat {
    numbers_used(lines, i, options) + 1
}

/// The text written for line `i` of a source: nothing if it is squeezed away,
/// else the line rendered under its number.
pub open spec fn line_output(lines: Seq<Seq<char>>, i: int, options: PrintOptions) -> Seq<char> {
    if squeezed(lines, i, options) {
        Seq::empty()
    } else {
        rendered_line(lines[i], line_number_at(lines, i, options), options)
    }
}

/// The text written for the first `k` lines of a source.
pub open spec fn output_upto(lines: Seq<Seq<char>>, k: int, options: PrintOptions) -> Seq<char>
    decreases k,
{
    if k <= 0 {
        Seq::empty()
    } else {
        output_upto(lines, k - 1, options) + line_output(lines, k - 1, options)
    }
}

/// The text written for a whole source.
pub open spec fn source_output(lines: Seq<Seq<char>>, options: PrintOptions) -> Seq<char> {
    output_upto(lines, lines.len() as int, options)
}

/// The text written for the first `k` of several sources. Each source is
/// processed on its own, and the texts follow one another in the order of the
/// sources.
pub open spec fn sources_output_upto(
    sources: Seq<Seq<Seq<char>>>,
    k: int,
    options: PrintOptions,
) -> Seq<char>
    decreases k,
{
    if k <= 0 {
        Seq::empty()
    } else {
        sources_output_upto(sources, k - 1, options) + source_output(sources[k - 1], options)
    }
}

/// The text written for several sources.
pub open spec fn sources_output(sources: Seq<Seq<Seq<char>>>, options: PrintOptions) -> Seq<char> {
    sources_output_upto(sources, sources.len() as int, options)
}

/// No more numbers are used up than there are lines.
pub proof fn lemma_numbers_used_bound(lines: Seq<Seq<char>>, k: int, options: PrintOptions)
    requires
        0 <= k,
    ensures
        numbers_used(lines, k, options) <= k,
    decreases k,
{
    if k > 0 {
        lemma_numbers_used_bound(lines, k - 1, options);
    }
}

/// What is carried from one line of a source to the next.
#[derive(Clone, Copy, Debug, PartialEq, Eq, Structural)]
pub struct LineState {
    /// The number that the next numbered line carries.
    pub line_number: usize,
    /// Whether the line read last is blank.
    pub prev_was_blank: bool,
}

impl LineState {
    /// Whether this is the state in which line `k` of `lines` is met, that is
    /// after the `k` lines before it.
    pub open spec fn at(self, lines: Seq<Seq<char>>, k: int, options: PrintOptions) -> bool {
        &&& self.line_number == line_number_at(lines, k, options)
        &&& self.prev_was_blank == follows_blank(lines, k)
    }

    /// Whether a line met in this state is dropped.
    pub open spec fn skips(self, line: Seq<char>, options: PrintOptions) -> bool {
        options.squeeze_blank && is_blank(line) && self.prev_was_blank
    }

    /// The state at the start of a source.
    pub fn new() -> (state: LineState)
        ensures
            state.line_number == 1,
            !state.prev_was_blank,
            forall|lines: Seq<Seq<char>>, options: PrintOptions| #[trigger] state.at(lines, 0, options),
    {
        LineState { line_number: 1, prev_was_blank: false }
    }

    /// The text written for a line met in this state, if it is written.
    pub open spec fn written(self, line: Seq<char>, options: PrintOptions) -> Option<Seq<char>> {
        if self.skips(line, options) {
            None
        } else {
            Some(rendered_line(line, self.line_number as nat, options))
        }
    }

    /// The state after a line met in this state: the counter goes on by one
    /// if the line is written and uses up its number, and the line is
    /// remembered as blank or not, whether it is written or dropped.
    pub open spec fn next(self, line: Seq<char>, options: PrintOptions) -> LineState {
        LineState {
            line_number: if !self.skips(line, options) && takes_number(line, options) {
                (self.line_number + 1) as usize
            } else {
                self.line_number
            },
            prev_was_blank: is_blank(line),
        }
    }

    /// Takes the next line of the source. Returns the text to write for it,
    /// or `None` if the line is dropped, and moves on to the state for the
    /// line after it. The counter must have room to go on by one.
    pub fn feed(&mut self, line: &str, options: &PrintOptions) -> (out: Option<String>)
        requires
            old(self).line_number < usize::MAX,
        ensures
            *final(self) == old(self).next(line@, *options),
            match out {
                Some(text) => old(self).written(line@, *options) == Some(text@),
                None => old(self).written(line@, *options) is None,
            },
    {
        let is_empty = is_blank_line(line);
        let mut out: Option<String> = None;
        if !options.squeeze_blank || !is_empty || !self.prev_was_blank {
            let (text, counted) = output_line(line, self.line_number, options);
            if counted {
                self.line_number = self.line_number + 1;
            }
            out = Some(text);
        }
        self.prev_was_blank = is_empty;
        out
    }
}

/// Processes one source from its first line to its last and returns the text
/// to write for it. The source must leave the line counter room to go on
/// after its last line.
pub fn cat_lines(lines: &Vec<String>, options: &PrintOptions) -> (out: String)
    requires
        lines.len() < usize::MAX,
    ensures
        out@ == source_output(lines.deep_view(), *options),
{
    let ghost model = lines.deep_view();
    let mut state = LineState::new();
    let mut out = String::new();
    let mut i: usize = 0;
    while i < lines.len()
        invariant
            i <= lines.len() < usize::MAX,
            model == lines.deep_view(),
            state.at(model, i as int, *options),
            out@ == output_upto(model, i as int, *options),
        decreases lines.len() - i,
    {
        proof {
            lemma_numbers_used_bound(model, i as int, *options);
            assert(model[i as int] == lines[i as int]@);
        }
        match state.feed(lines[i].as_str(), options) {
            Some(text) => {
                out.append(text.as_str());
            },
            None => {
                assert(out@ + Seq::<char>::empty() == out@);
            },
        }
        i = i + 1;
    }
    out
}

/// Processes several sources in the order given, each from a fresh start,
/// and returns the text to write for all of them.
pub fn cat_sources(sources: &Vec<Vec<String>>, options: &PrintOptions) -> (out: String)
    requires
        forall|s: int| 0 <= s < sources.len() ==> (#[trigger] sources[s]).len() < usize::MAX,
    ensures
        out@ == sources_output(sources.deep_view(), *options),
{
    let ghost model = sources.deep_view();
    let mut out = String::new();
    let mut s: usize = 0;
    while s < sources.len()
        invariant
            s <= sources.len(),
            model == sources.deep_view(),
            forall|s: int| 0 <= s < sources.len() ==> (#[trigger] sources[s]).len() < usize::MAX,
            out@ == sources_output_upto(model, s as int, *options),
        decreases sources.len() - s,
    {
        proof {
            assert(model[s as int] == sources[s as int].deep_view());
        }
        let text = cat_lines(&sources[s], options);
        out.append(text.as_str());
        s = s + 1;
    }
    out
}

} // verus!
