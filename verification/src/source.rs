//! The kinds of graph sources, and what the window shows for each.
use vstd::prelude::*;

verus! {

/// Where the points of a graph come from.
#[derive(Clone, Copy, Debug, PartialEq, Eq)]
pub enum GraphSourceKind {
    /// A function of `x`.
    Expression,
    /// A text file of numbers.
    TxtFile,
    /// The samples of a WAV file.
    WavFile,
}

impl GraphSourceKind {
    /// The kind that clicking the kind button turns this one into: expression, text file,
    /// WAV file, and round again.
    pub open spec fn spec_next(self) -> GraphSourceKind {
        match self {
            GraphSourceKind::Expression => GraphSourceKind::TxtFile,
            GraphSourceKind::TxtFile => GraphSourceKind::WavFile,
            GraphSourceKind::WavFile => GraphSourceKind::Expression,
        }
    }

    /// The kind that clicking the kind button turns this one into.
    pub fn next(self) -> (res: GraphSourceKind)
        ensures
            res == self.spec_next(),
    {
        match self {
            GraphSourceKind::Expression => GraphSourceKind::TxtFile,
            GraphSourceKind::TxtFile => GraphSourceKind::WavFile,
            GraphSourceKind::WavFile => GraphSourceKind::Expression,
        }
    }
}

/// Three clicks of the kind button bring back the kind one started with, and fewer
/// do not.
pub proof fn law_kind_cycle(k: GraphSourceKind)
    ensures
        k.spec_next().spec_next().spec_next() == k,
        k.spec_next() != k,
        k.spec_next().spec_next() != k,
{
}

/// The label of the kind button.
pub fn get_source_kind_text(kind: GraphSourceKind) -> (res: &'static str)
    ensures
        kind == GraphSourceKind::Expression ==> res@ == "f(x)"@,
        kind == GraphSourceKind::TxtFile ==> res@ == "txt"@,
        kind == GraphSourceKind::WavFile ==> res@ == "wav"@,
{
    match kind {
        GraphSourceKind::Expression => "f(x)",
        GraphSourceKind::TxtFile => "txt",
        GraphSourceKind::WavFile => "wav",
    }
}

/// The text a source's text box gets when its kind changes.
pub fn get_source_kind_value(kind: GraphSourceKind) -> (res: &'static str)
    ensures
        kind == GraphSourceKind::Expression ==> res@ == "sin(x)"@,
        kind == GraphSourceKind::TxtFile ==> res@ == "file.txt"@,
        kind == GraphSourceKind::WavFile ==> res@ == "file.wav"@,
{
    match kind {
        GraphSourceKind::Expression => "sin(x)",
        GraphSourceKind::TxtFile => "file.txt",
        GraphSourceKind::WavFile => "file.wav",
    }
}

} // verus!
