//! Display options and how they are derived from the command-line switches.

use vstd::prelude::*;

verus! {

/// The switches exactly as given on the command line, one field per switch.
#[derive(Clone, Copy, Debug, PartialEq, Eq, Structural)]
pub struct RawFlags {
    /// `-A`, `--show-all`
    pub show_all: bool,
    /// `-b`, `--number-nonblank`
    pub number_nonblank: bool,
    /// `-e`
    pub e: bool,
    /// `-E`, `--show-ends`
    pub show_ends: bool,
    /// `-n`, `--number`
    pub number: bool,
    /// `-s`, `--squeeze-blank`
    pub squeeze_blank: bool,
    /// `-t`
    pub t: bool,
    /// `-T`, `--show-tabs`
    pub show_tabs: bool,
    /// `-v`, `--show-nonprinting`
    pub show_nonprinting: bool,
}

/// The six primitive display rules that line processing reads.
#[derive(Clone, Copy, Debug, PartialEq, Eq, Structural)]
pub struct PrintOptions {
    /// Blank lines are printed bare and take no number.
    pub number_nonblank: bool,
    /// A `$` is written after the body of each line.
    pub show_ends: bool,
    /// Each line is prefixed with its number.
    pub number_line: bool,
    /// A blank line that follows a blank line is dropped.
    pub squeeze_blank: bool,
    /// Tabs are written as `^I`.
    pub show_tabs: bool,
    /// Accepted and carried along; it changes nothing in the output.
    pub show_nonprinting: bool,
}

impl PrintOptions {
    /// The options that a set of switches stands for: the shorthand switches
    /// `-A`, `-e` and `-t` are expanded, the others are taken as they are.
    pub open spec fn resolved(flags: RawFlags) -> PrintOptions {
        PrintOptions {
            number_nonblank: flags.number_nonblank,
            show_ends: flags.show_ends || flags.show_all || flags.e,
            number_line: flags.number,
            squeeze_blank: flags.squeeze_blank,
            show_tabs: flags.show_tabs || flags.show_all || flags.t,
            show_nonprinting: flags.show_nonprinting || flags.show_all || flags.e || flags.t,
        }
    }

    /// Expands the command-line switches into display options.
    pub fn resolve(flags: &RawFlags) -> (options: PrintOptions)
        ensures
            options == Self::resolved(*flags),
    {
        PrintOptions {
            number_nonblank: flags.number_nonblank,
            show_ends: flags.show_ends || flags.show_all || flags.e,
            number_line: flags.number,
            squeeze_blank: flags.squeeze_blank,
            show_tabs: flags.show_tabs || flags.show_all || flags.t,
            show_nonprinting: flags.show_nonprinting || flags.show_all || flags.e || flags.t,
        }
    }
}

impl Default for RawFlags {
    /// No switch given.
    fn default() -> (flags: RawFlags)
        ensures
            flags == (RawFlags {
                show_all: false,
                number_nonblank: false,
                e: false,
                show_ends: false,
                number: false,
                squeeze_blank: false,
                t: false,
                show_tabs: false,
                show_nonprinting: false,
            }),
    {
        RawFlags {
            show_all: false,
            number_nonblank: false,
            e: false,
            show_ends: false,
            number: false,
            squeeze_blank: false,
            t: false,
            show_tabs: false,
            show_nonprinting: false,
        }
    }
}

impl Default for PrintOptions {
    /// Plain passthrough: no display rule switched on. This is what no switch
    /// at all resolves to.
    fn default() -> (options: PrintOptions)
        ensures
            options == (PrintOptions {
                number_nonblank: false,
                show_ends: false,
                number_line: false,
                squeeze_blank: false,
                show_tabs: false,
                show_nonprinting: false,
            }),
            forall|flags: RawFlags|
                !flags.show_all && !flags.number_nonblank && !flags.e && !flags.show_ends
                    && !flags.number && !flags.squeeze_blank && !flags.t && !flags.show_tabs
                    && !flags.show_nonprinting ==> options == #[trigger] PrintOptions::resolved(
                    flags,
                ),
    {
        PrintOptions {
            number_nonblank: false,
            show_ends: false,
            number_line: false,
            squeeze_blank: false,
            show_tabs: false,
            show_nonprinting: false,
        }
    }
}

} // verus!
