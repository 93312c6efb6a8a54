//! Which sources a run reads, given the names on the command line.

use vstd::prelude::*;
use vstd::string::StrSliceExecFns;

verus! {

/// One input of a run.
#[derive(Clone, Debug, PartialEq, Eq)]
pub enum Source {
    /// Standard input.
    Stdin,
    /// The file of the given name.
    File(String),
}

/// A source as contracts see it: a file is known by the characters of its name.
pub enum SourceView {
    Stdin,
    File(Seq<char>),
}

impl View for Source {
    type V = SourceView;

    open spec fn view(&self) -> SourceView {
        match self {
            Source::Stdin => SourceView::Stdin,
            Source::File(name) => SourceView::File(name@),
        }
    }
}

/// The source that a name stands for: the one-character name `-` stands for
/// standard input, every other name for the file of that name.
pub open spec fn named_source(name: Seq<char>) -> SourceView {
    if name == seq!['-'] {
        SourceView::Stdin
    } else {
        SourceView::File(name)
    }
}

/// The sources of a run, in order: one for each name given, or standard
/// input alone where no name is given.
pub open spec fn planned_sources(names: Seq<Seq<char>>) -> Seq<SourceView> {
    if names.len() == 0 {
        seq![SourceView::Stdin]
    } else {
        Seq::new(names.len(), |i: int| named_source(names[i]))
    }
}

impl Source {
    /// Resolves one name from the command line.
    pub fn from_name(name: &str) -> (source: Source)
        ensures
            source@ == named_source(name@),
    {
        if name.unicode_len() == 1 && name.get_char(0) == '-' {
            assert(name@ == seq!['-']);
            Source::Stdin
        } else {
            Source::File(name.to_owned())
        }
    }
}

/// Resolves the names from the command line to the sources to read, in the
/// order in which they are to be read.
pub fn plan_sources(names: &Vec<String>) -> (plan: Vec<Source>)
    ensures
        plan@.len() == planned_sources(names.deep_view()).len(),
        forall|i: int|
            0 <= i < plan@.len() ==> (#[trigger] plan@[i])@ == planned_sources(names.deep_view())[i],
{
    let mut plan: Vec<Source> = Vec::new();
    if names.len() == 0 {
        plan.push(Source::Stdin);
        return plan;
    }
    let ghost model = names.deep_view();
    let mut i: usize = 0;
    while i < names.len()
        invariant
            i <= names.len(),
            model == names.deep_view(),
            plan@.len() == i,
            forall|j: int| 0 <= j < i ==> (#[trigger] plan@[j])@ == named_source(model[j]),
        decreases names.len() - i,
    {
        proof {
            assert(model[i as int] == names[i as int]@);
        }
        plan.push(Source::from_name(names[i].as_str()));
        i = i + 1;
    }
    plan
}

} // verus!
