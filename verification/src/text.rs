//! Character-level building blocks: blank-line detection, visible tabs and
//! right-justified line labels.

use vstd::prelude::*;

verus! {

/// Width of the field in which a line number is right-justified.
pub const LABEL_WIDTH: usize = 6;

/// `String::push` of the standard library appends one character to the end of
/// the string and leaves the characters before it as they were.
pub assume_specification[ String::push ](s: &mut String, ch: char)
    ensures
        final(s)@ == old(s)@.push(ch),
;

/// A line without the line feeds at its end.
pub open spec fn strip_line_end(line: Seq<char>) -> Seq<char>
    decreases line.len(),
{
    if line.len() > 0 && line.last() == '\n' {
        strip_line_end(line.drop_last())
    } else {
        line
    }
}

/// A line is blank when nothing is left of it once the line feeds at its end
/// are stripped.
pub open spec fn is_blank(line: Seq<char>) -> bool {
    strip_line_end(line).len() == 0
}

/// A line is blank exactly when it holds nothing but line feeds; the empty
/// line is the common case.
pub proof fn lemma_blank_iff_only_line_feeds(line: Seq<char>)
    ensures
        is_blank(line) <==> forall|i: int| 0 <= i < line.len() ==> line[i] == '\n',
    decreases line.len(),
{
    if line.len() > 0 && line.last() == '\n' {
        lemma_blank_iff_only_line_feeds(line.drop_last());
        if is_blank(line.drop_last()) {
            assert forall|i: int| 0 <= i < line.len() implies line[i] == '\n' by {
                if i < line.len() - 1 {
                    assert(line.drop_last()[i] == line[i]);
                }
            }
        } else {
            let i = choose|i: int| 0 <= i < line.drop_last().len() && line.drop_last()[i] != '\n';
            assert(line[i] != '\n');
        }
    } else if line.len() > 0 {
        assert(line[line.len() - 1] != '\n');
    }
}

/// Tells whether a line is blank.
pub fn is_blank_line(line: &str) -> (blank: bool)
    ensures
        blank == is_blank(line@),
{
    proof {
        lemma_blank_iff_only_line_feeds(line@);
    }
    for c in it: line.chars()
        invariant
            it.seq() == line@,
            forall|i: int| 0 <= i < it.index() ==> line@[i] == '\n',
            is_blank(line@) <==> forall|i: int| 0 <= i < line@.len() ==> line@[i] == '\n',
    {
        if c != '\n' {
            assert(line@[it.index()] != '\n');
            return false;
        }
    }
    true
}

/// What stands for one character once tabs are made visible.
pub open spec fn shown_char(c: char) -> Seq<char> {
    if c == '\t' {
        seq!['^', 'I']
    } else {
        seq![c]
    }
}

/// A line with every tab written as `^I` and every other character kept.
pub open spec fn visible_tabs(line: Seq<char>) -> Seq<char>
    decreases line.len(),
{
    if line.len() == 0 {
        Seq::empty()
    } else {
        visible_tabs(line.drop_last()) + shown_char(line.last())
    }
}

/// Writes every tab of a line as the two characters `^I`.
pub fn replace_tabs(line: &str) -> (out: String)
    ensures
        out@ == visible_tabs(line@),
{
    let mut out = String::new();
    for c in it: line.chars()
        invariant
            it.seq() == line@,
            out@ == visible_tabs(line@.take(it.index())),
    {
        proof {
            let k = it.index();
            assert(line@.take(k + 1).drop_last() == line@.take(k));
        }
        if c == '\t' {
            out.push('^');
            out.push('I');
        } else {
            out.push(c);
        }
    }
    proof {
        assert(line@.take(line@.len() as int) == line@);
    }
    out
}

/// The character for one decimal digit.
pub open spec fn digit(d: int) -> char {
    (d + 48) as char
}

/// A number in decimal notation, without sign or leading zeros.
pub open spec fn decimal(n: nat) -> Seq<char>
    decreases n,
{
    if n < 10 {
        seq![digit(n as int)]
    } else {
        decimal(n / 10).push(digit((n % 10) as int))
    }
}

/// A text moved to the right edge of a field of the given width by spaces in
/// front of it. A text that is wider than the field is kept whole.
pub open spec fn right_justified(text: Seq<char>, width: nat) -> Seq<char> {
    if text.len() >= width {
        text
    } else {
        Seq::new((width - text.len()) as nat, |i: int| ' ') + text
    }
}

/// The label in front of a numbered line: the number, right-justified in its
/// field, and a tab.
pub open spec fn line_label(n: nat) -> Seq<char> {
    right_justified(decimal(n), LABEL_WIDTH as nat).push('\t')
}

fn digit_char(d: usize) -> (c: char)
    requires
        d < 10,
    ensures
        c == digit(d as int),
{
    (48u8 + d as u8) as char
}

/// The decimal digits of a number, the last digit first.
fn reversed_digits(n: usize) -> (rev: Vec<char>)
    ensures
        rev@.reverse() == decimal(n as nat),
        rev@.len() > 0,
{
    let mut rev: Vec<char> = Vec::new();
    let mut rest: usize = n;
    while rest >= 10
        invariant
            decimal(n as nat) == decimal(rest as nat) + rev@.reverse(),
        decreases rest,
    {
        let c = digit_char(rest % 10);
        proof {
            assert(rev@.push(c).reverse() == seq![c] + rev@.reverse());
            assert(decimal(rest as nat) + rev@.reverse() == decimal((rest / 10) as nat) + (seq![c]
                + rev@.reverse()));
        }
        rev.push(c);
        rest = rest / 10;
    }
    let c = digit_char(rest);
    proof {
        assert(rev@.push(c).reverse() == seq![c] + rev@.reverse());
    }
    rev.push(c);
    rev
}

/// Renders a line number as it stands in front of a numbered line.
pub fn format_label(n: usize) -> (out: String)
    ensures
        out@ == line_label(n as nat),
{
    let rev = reversed_digits(n);
    let len = rev.len();
    let mut out = String::new();
    let mut written: usize = len;
    while written < LABEL_WIDTH
        invariant
            len <= written,
            written == len || written <= LABEL_WIDTH,
            out@ == Seq::new((written - len) as nat, |i: int| ' '),
        decreases LABEL_WIDTH - written,
    {
        out.push(' ');
        written = written + 1;
    }
    let ghost pad = out@;
    let mut i: usize = len;
    while i > 0
        invariant
            i <= len,
            len == rev@.len(),
            out@ == pad + rev@.reverse().take(len - i),
        decreases i,
    {
        i = i - 1;
        proof {
            let digits = rev@.reverse();
            assert(digits.take(len - i) == digits.take(len - i - 1).push(rev@[i as int]));
        }
        out.push(rev[i]);
    }
    proof {
        assert(rev@.reverse().take(len as int) == rev@.reverse());
        if len >= LABEL_WIDTH {
            assert(pad + decimal(n as nat) == decimal(n as nat));
        }
    }
    out.push('\t');
    out
}

} // verus!
