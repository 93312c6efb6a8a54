//! Laws that relate the display options, the rendering of lines and the
//! processing of sources.

use crate::line::{rendered_line, takes_number};
use crate::options::{PrintOptions, RawFlags};
use crate::stream::{
    follows_blank, line_number_at, line_output, numbered, numbers_used, output_upto,
    source_output, sources_output, sources_output_upto, squeezed, LineState,
};
use crate::text::{is_blank, line_label, shown_char, visible_tabs};
use vstd::prelude::*;

verus! {

/// With no display rule switched on, a source of one line is written as that
/// line followed by one line feed.
pub proof fn lemma_plain_line_passes_through(line: Seq<char>, options: PrintOptions)
    requires
        !options.number_nonblank,
        !options.show_ends,
        !options.number_line,
        !options.squeeze_blank,
        !options.show_tabs,
    ensures
        source_output(seq![line], options) == line + seq!['\n'],
{
    let lines = seq![line];
    assert(output_upto(lines, 0, options) == Seq::<char>::empty());
    assert(output_upto(lines, 1, options) == output_upto(lines, 0, options) + line_output(
        lines,
        0,
        options,
    ));
    assert(line_output(lines, 0, options) == line + seq!['\n']);
}

/// With line numbering alone switched on, every line is written, the lines
/// carry the numbers 1, 2, 3 and so on in order, and each is written as its
/// right-justified number, a tab, the line as it is and a line feed.
pub proof fn lemma_numbering_is_sequential(lines: Seq<Seq<char>>, i: int, options: PrintOptions)
    requires
        options.number_line,
        !options.number_nonblank,
        !options.show_ends,
        !options.squeeze_blank,
        !options.show_tabs,
        0 <= i < lines.len(),
    ensures
        numbers_used(lines, i, options) == i,
        line_number_at(lines, i, options) == i + 1,
        line_output(lines, i, options) == line_label((i + 1) as nat) + lines[i] + seq!['\n'],
    decreases i,
{
    if i > 0 {
        lemma_numbering_is_sequential(lines, i - 1, options);
    }
    assert(line_label((i + 1) as nat) + lines[i] + Seq::<char>::empty() + seq!['\n']
        == line_label((i + 1) as nat) + lines[i] + seq!['\n']);
}

/// How many of the first `k` lines are not blank.
pub open spec fn nonblank_count(lines: Seq<Seq<char>>, k: int) -> nat
    decreases k,
{
    if k <= 0 {
        0
    } else {
        nonblank_count(lines, k - 1) + if is_blank(lines[k - 1]) {
            0nat
        } else {
            1nat
        }
    }
}

/// While only non-blank lines are numbered, a blank line shows no number and
/// uses none up: it is written as a bare line feed, or not at all where it is
/// squeezed away, and the line after it meets the same number.
pub proof fn lemma_blank_line_takes_no_number(
    lines: Seq<Seq<char>>,
    i: int,
    options: PrintOptions,
)
    requires
        options.number_nonblank,
        0 <= i < lines.len(),
        is_blank(lines[i]),
    ensures
        !numbered(lines, i, options),
        line_number_at(lines, i + 1, options) == line_number_at(lines, i, options),
        line_output(lines, i, options) == if squeezed(lines, i, options) {
            Seq::<char>::empty()
        } else {
            seq!['\n']
        },
{
}

/// While only non-blank lines are numbered, the counter goes on exactly with
/// the non-blank lines: the number a line meets is one more than the count of
/// non-blank lines before it.
pub proof fn lemma_counter_follows_nonblank_lines(
    lines: Seq<Seq<char>>,
    k: int,
    options: PrintOptions,
)
    requires
        options.number_nonblank,
        0 <= k <= lines.len(),
    ensures
        numbers_used(lines, k, options) == nonblank_count(lines, k),
        line_number_at(lines, k, options) == nonblank_count(lines, k) + 1,
    decreases k,
{
    if k > 0 {
        lemma_counter_follows_nonblank_lines(lines, k - 1, options);
    }
}

/// Every line that is written with its end marked ends in `$` and a line
/// feed. The one line that is written without a marker is a blank line while
/// only non-blank lines are numbered: it uses no number and is left out here.
pub proof fn lemma_end_marker_closes_line(line: Seq<char>, n: nat, options: PrintOptions)
    requires
        options.show_ends,
        takes_number(line, options),
    ensures
        ({
            let text = rendered_line(line, n, options);
            &&& text.len() >= 2
            &&& text[text.len() - 2] == '$'
            &&& text[text.len() - 1] == '\n'
        }),
{
}

/// The switch `-A` stands for the switches `-E`, `-T` and `-v` together:
/// whatever the other switches are, both resolve to the same options, and so
/// to the same text for any input.
pub proof fn lemma_show_all_is_ends_tabs_nonprinting(
    flags: RawFlags,
    sources: Seq<Seq<Seq<char>>>,
)
    ensures
        ({
            let short = RawFlags { show_all: true, ..flags };
            let long = RawFlags { show_ends: true, show_tabs: true, show_nonprinting: true, ..flags };
            &&& PrintOptions::resolved(short) == PrintOptions::resolved(long)
            &&& sources_output(sources, PrintOptions::resolved(short)) == sources_output(
                sources,
                PrintOptions::resolved(long),
            )
        }),
{
}

/// The text for a list of sources is the text for its first part followed by
/// the text for the rest: no state is carried from one source to the next.
pub proof fn lemma_sources_concatenate(
    first: Seq<Seq<Seq<char>>>,
    rest: Seq<Seq<Seq<char>>>,
    options: PrintOptions,
)
    ensures
        sources_output(first + rest, options) == sources_output(first, options) + sources_output(
            rest,
            options,
        ),
    decreases rest.len(),
{
    let all = first + rest;
    if rest.len() == 0 {
        assert(all == first);
        assert(sources_output(rest, options) == Seq::<char>::empty());
        assert(sources_output(first, options) + Seq::<char>::empty() == sources_output(
            first,
            options,
        ));
    } else {
        let shorter = rest.drop_last();
        lemma_sources_concatenate(first, shorter, options);
        lemma_sources_prefix(all, first + shorter, (all.len() - 1) as int, options);
        lemma_sources_prefix(rest, shorter, (rest.len() - 1) as int, options);
        assert(all[all.len() - 1] == rest.last());
        assert(sources_output(all, options) == sources_output(first + shorter, options)
            + source_output(rest.last(), options));
        assert(sources_output(rest, options) == sources_output(shorter, options) + source_output(
            rest.last(),
            options,
        ));
        assert(sources_output(first, options) + (sources_output(shorter, options) + source_output(
            rest.last(),
            options,
        )) == sources_output(first, options) + sources_output(shorter, options) + source_output(
            rest.last(),
            options,
        ));
    }
}

/// Two lists of sources that agree on their first `k` sources give the same
/// text for them.
proof fn lemma_sources_prefix(
    a: Seq<Seq<Seq<char>>>,
    b: Seq<Seq<Seq<char>>>,
    k: int,
    options: PrintOptions,
)
    requires
        0 <= k <= a.len(),
        k <= b.len(),
        forall|s: int| 0 <= s < k ==> a[s] == b[s],
    ensures
        sources_output_upto(a, k, options) == sources_output_upto(b, k, options),
    decreases k,
{
    if k > 0 {
        lemma_sources_prefix(a, b, k - 1, options);
    }
}

/// Running over two sources gives the text of the first alone followed by the
/// text of the second alone.
pub proof fn lemma_two_sources(a: Seq<Seq<char>>, b: Seq<Seq<char>>, options: PrintOptions)
    ensures
        sources_output(seq![a], options) == source_output(a, options),
        sources_output(seq![a, b], options) == sources_output(seq![a], options) + sources_output(
            seq![b],
            options,
        ),
        sources_output(seq![a, b], options) == source_output(a, options) + source_output(
            b,
            options,
        ),
{
    lemma_one_source(a, options);
    lemma_one_source(b, options);
    assert(seq![a, b] == seq![a] + seq![b]);
    lemma_sources_concatenate(seq![a], seq![b], options);
}

/// A list of one source gives the text of that source.
proof fn lemma_one_source(a: Seq<Seq<char>>, options: PrintOptions)
    ensures
        sources_output(seq![a], options) == source_output(a, options),
{
    let one = seq![a];
    assert(sources_output_upto(one, 0, options) == Seq::<char>::empty());
    assert(sources_output_upto(one, 1, options) == sources_output_upto(one, 0, options)
        + source_output(one[0], options));
    assert(Seq::<char>::empty() + source_output(a, options) == source_output(a, options));
}

/// Making tabs visible works character by character: the text for two pieces
/// joined is the text for the first followed by the text for the second.
pub proof fn lemma_visible_tabs_concat(a: Seq<char>, b: Seq<char>)
    ensures
        visible_tabs(a + b) == visible_tabs(a) + visible_tabs(b),
    decreases b.len(),
{
    if b.len() == 0 {
        assert(a + b == a);
        assert(visible_tabs(a) + Seq::<char>::empty() == visible_tabs(a));
    } else {
        lemma_visible_tabs_concat(a, b.drop_last());
        assert((a + b).drop_last() == a + b.drop_last());
        assert(visible_tabs(a) + (visible_tabs(b.drop_last()) + shown_char(b.last()))
            == visible_tabs(a) + visible_tabs(b.drop_last()) + shown_char(b.last()));
    }
}

/// With tabs made visible, character `i` of a line stands right after the
/// text for the characters before it: a tab as the two characters `^` and `I`,
/// any other character as itself. Nothing else is in the text.
pub proof fn lemma_visible_tabs_at(line: Seq<char>, i: int)
    requires
        0 <= i < line.len(),
    ensures
        ({
            let start = visible_tabs(line.take(i)).len() as int;
            let end = visible_tabs(line.take(i + 1)).len() as int;
            &&& end <= visible_tabs(line).len()
            &&& visible_tabs(line).subrange(0, start) == visible_tabs(line.take(i))
            &&& visible_tabs(line).subrange(start, end) == shown_char(line[i])
            &&& line[i] == '\t' ==> end == start + 2 && visible_tabs(line)[start] == '^'
                && visible_tabs(line)[start + 1] == 'I'
            &&& line[i] != '\t' ==> end == start + 1 && visible_tabs(line)[start] == line[i]
        }),
{
    let before = line.take(i);
    let upto = line.take(i + 1);
    let after = line.skip(i + 1);
    assert(upto.drop_last() == before);
    assert(upto.last() == line[i]);
    assert(visible_tabs(upto) == visible_tabs(before) + shown_char(line[i]));
    assert(upto + after == line);
    lemma_visible_tabs_concat(upto, after);
    let start = visible_tabs(before).len() as int;
    let end = visible_tabs(upto).len() as int;
    assert(visible_tabs(line).subrange(0, start) == visible_tabs(before));
    assert(visible_tabs(line).subrange(start, end) == shown_char(line[i]));
    assert(visible_tabs(line)[start] == shown_char(line[i])[0]);
    if line[i] == '\t' {
        assert(visible_tabs(line)[start + 1] == shown_char(line[i])[1]);
    }
}

/// No tab is left in a line whose tabs are made visible, and the line grows
/// by one character for each tab that it held.
pub proof fn lemma_visible_tabs_has_no_tab(line: Seq<char>)
    ensures
        forall|j: int| 0 <= j < visible_tabs(line).len() ==> visible_tabs(line)[j] != '\t',
        visible_tabs(line).len() == line.len() + tab_count(line),
    decreases line.len(),
{
    if line.len() > 0 {
        lemma_visible_tabs_has_no_tab(line.drop_last());
        let head = visible_tabs(line.drop_last());
        assert forall|j: int| 0 <= j < visible_tabs(line).len() implies visible_tabs(line)[j]
            != '\t' by {
            if j < head.len() {
                assert(visible_tabs(line)[j] == head[j]);
            } else {
                assert(visible_tabs(line)[j] == shown_char(line.last())[j - head.len()]);
            }
        }
    }
}

/// How many tabs a line holds.
pub open spec fn tab_count(line: Seq<char>) -> nat
    decreases line.len(),
{
    if line.len() == 0 {
        0
    } else {
        tab_count(line.drop_last()) + if line.last() == '\t' {
            1nat
        } else {
            0nat
        }
    }
}

/// A line without tabs is not changed by making tabs visible.
pub proof fn lemma_visible_tabs_keeps_tabless(line: Seq<char>)
    requires
        forall|i: int| 0 <= i < line.len() ==> line[i] != '\t',
    ensures
        visible_tabs(line) == line,
    decreases line.len(),
{
    if line.len() > 0 {
        let head = line.drop_last();
        assert forall|i: int| 0 <= i < head.len() implies head[i] != '\t' by {
            assert(head[i] == line[i]);
        }
        lemma_visible_tabs_keeps_tabless(head);
        assert(line[line.len() - 1] != '\t');
        assert(head + seq![line.last()] == line);
    }
}

/// Two sources that agree on their first `k` lines use the same numbers on
/// them and give the same text for them.
pub proof fn lemma_output_depends_on_prefix(
    a: Seq<Seq<char>>,
    b: Seq<Seq<char>>,
    k: int,
    options: PrintOptions,
)
    requires
        0 <= k <= a.len(),
        k <= b.len(),
        forall|i: int| 0 <= i < k ==> a[i] == b[i],
    ensures
        numbers_used(a, k, options) == numbers_used(b, k, options),
        follows_blank(a, k) == follows_blank(b, k),
        output_upto(a, k, options) == output_upto(b, k, options),
    decreases k,
{
    if k > 0 {
        lemma_output_depends_on_prefix(a, b, k - 1, options);
        assert(a[k - 1] == b[k - 1]);
    }
}

/// While blank lines are squeezed, the blank lines that follow the first of
/// a run are dropped and use no number.
proof fn lemma_blank_run_tail_is_dropped(
    lines: Seq<Seq<char>>,
    start: int,
    len: int,
    options: PrintOptions,
)
    requires
        options.squeeze_blank,
        0 <= start,
        1 <= len,
        start + len <= lines.len(),
        forall|j: int| start <= j < start + len ==> is_blank(lines[j]),
    ensures
        numbers_used(lines, start + len, options) == numbers_used(lines, start + 1, options),
        output_upto(lines, start + len, options) == output_upto(lines, start + 1, options),
    decreases len,
{
    if len > 1 {
        lemma_blank_run_tail_is_dropped(lines, start, len - 1, options);
        let last = start + len - 1;
        assert(is_blank(lines[last]));
        assert(is_blank(lines[last - 1]));
        assert(squeezed(lines, last, options));
        assert(output_upto(lines, last, options) + Seq::<char>::empty() == output_upto(
            lines,
            last,
            options,
        ));
    }
}

/// Two sources that have come to the same text, the same count of numbers
/// and the same kind of last line, and that go on with the same lines, stay
/// in step over those lines.
proof fn lemma_same_lines_same_output(
    a: Seq<Seq<char>>,
    at_a: int,
    b: Seq<Seq<char>>,
    at_b: int,
    more: int,
    options: PrintOptions,
)
    requires
        0 <= at_a,
        0 <= at_b,
        0 <= more,
        at_a + more <= a.len(),
        at_b + more <= b.len(),
        forall|i: int| at_a <= i < at_a + more ==> #[trigger] a[i] == b[i - at_a + at_b],
        numbers_used(a, at_a, options) == numbers_used(b, at_b, options),
        follows_blank(a, at_a) == follows_blank(b, at_b),
        output_upto(a, at_a, options) == output_upto(b, at_b, options),
    ensures
        numbers_used(a, at_a + more, options) == numbers_used(b, at_b + more, options),
        follows_blank(a, at_a + more) == follows_blank(b, at_b + more),
        output_upto(a, at_a + more, options) == output_upto(b, at_b + more, options),
    decreases more,
{
    if more > 0 {
        lemma_same_lines_same_output(a, at_a, b, at_b, more - 1, options);
        let i = at_a + more - 1;
        let j = at_b + more - 1;
        assert(a[i] == b[i - at_a + at_b]);
        assert(squeezed(a, i, options) == squeezed(b, j, options));
        assert(line_output(a, i, options) == line_output(b, j, options));
    }
}

/// While blank lines are squeezed, a run of blank lines gives the same text
/// as its first line alone would, whatever stands before and after the run.
pub proof fn lemma_squeeze_collapses_blank_run(
    before: Seq<Seq<char>>,
    run: Seq<Seq<char>>,
    after: Seq<Seq<char>>,
    options: PrintOptions,
)
    requires
        options.squeeze_blank,
        run.len() >= 1,
        forall|j: int| 0 <= j < run.len() ==> is_blank(run[j]),
    ensures
        source_output(before + run + after, options) == source_output(
            before + seq![run[0]] + after,
            options,
        ),
{
    let long = before + run + after;
    let short = before + seq![run[0]] + after;
    let start = before.len() as int;
    assert forall|j: int| start <= j < start + run.len() implies is_blank(long[j]) by {
        assert(long[j] == run[j - start]);
    }
    lemma_blank_run_tail_is_dropped(long, start, run.len() as int, options);
    assert forall|i: int| 0 <= i < start + 1 implies long[i] == short[i] by {
        if i == start {
            assert(long[i] == run[0]);
        }
    }
    lemma_output_depends_on_prefix(long, short, start + 1, options);
    let at_long = start + run.len();
    let at_short = start + 1;
    assert(long[at_long - 1] == run[run.len() - 1]);
    assert(short[at_short - 1] == run[0]);
    assert forall|i: int| at_long <= i < at_long + after.len() implies #[trigger] long[i]
        == short[i - at_long + at_short] by {
        assert(long[i] == after[i - at_long]);
        assert(short[i - at_long + at_short] == after[i - at_long]);
    }
    lemma_same_lines_same_output(long, at_long, short, at_short, after.len() as int, options);
}

/// While blank lines are squeezed, a run of blank lines that stands at the
/// start of a source or after a line that is not blank is written as exactly
/// one line, the first of the run: a run of one line is written as it is, a
/// longer one loses every line but its first.
pub proof fn lemma_blank_run_is_written_once(
    before: Seq<Seq<char>>,
    run: Seq<Seq<char>>,
    after: Seq<Seq<char>>,
    options: PrintOptions,
)
    requires
        options.squeeze_blank,
        run.len() >= 1,
        forall|j: int| 0 <= j < run.len() ==> is_blank(run[j]),
        before.len() == 0 || !is_blank(before.last()),
    ensures
        output_upto(before + run + after, (before.len() + run.len()) as int, options) == source_output(
            before,
            options,
        ) + rendered_line(run[0], line_number_at(before, before.len() as int, options), options),
{
    let long = before + run + after;
    let start = before.len() as int;
    assert forall|j: int| start <= j < start + run.len() implies is_blank(long[j]) by {
        assert(long[j] == run[j - start]);
    }
    lemma_blank_run_tail_is_dropped(long, start, run.len() as int, options);
    assert forall|i: int| 0 <= i < start implies long[i] == before[i] by {}
    lemma_output_depends_on_prefix(long, before, start, options);
    assert(long[start] == run[0]);
    if start > 0 {
        assert(long[start - 1] == before.last());
    }
    assert(!squeezed(long, start, options));
}

/// Taking a source line by line gives the text of the source: a state that
/// stands at line `k` writes for it what the source writes for its line `k`,
/// and then stands at line `k + 1`.
pub proof fn lemma_step_follows_source(
    state: LineState,
    lines: Seq<Seq<char>>,
    k: int,
    options: PrintOptions,
)
    requires
        0 <= k < lines.len(),
        state.at(lines, k, options),
        state.line_number < usize::MAX,
    ensures
        state.skips(lines[k], options) == squeezed(lines, k, options),
        state.written(lines[k], options) == if squeezed(lines, k, options) {
            None
        } else {
            Some(line_output(lines, k, options))
        },
        state.next(lines[k], options).at(lines, k + 1, options),
        output_upto(lines, k + 1, options) == output_upto(lines, k, options) + match state.written(
            lines[k],
            options,
        ) {
            Some(text) => text,
            None => Seq::empty(),
        },
{
}

} // verus!
