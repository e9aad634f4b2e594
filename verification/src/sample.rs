//! One audio file taking part in a tournament.

use vstd::prelude::*;

verus! {

/// The mathematical form of a [`Sample`].
pub struct SampleView {
    /// Where the file is, as text.
    pub path: Seq<char>,
    /// The name shown to the user.
    pub filename: Seq<char>,
    /// The score collected so far.
    pub score: int,
    /// How many comparisons the file has been through.
    pub comparisons: int,
}

/// An audio file with its standing in the tournament. Two samples with the
/// same `path` are the same file.
#[derive(Debug, PartialEq, Eq)]
pub struct Sample {
    /// Where the file is, as text.
    pub path: String,
    /// The name shown to the user.
    pub filename: String,
    /// The score collected so far.
    pub score: i32,
    /// How many comparisons the file has been through.
    pub comparisons: i32,
}

impl View for Sample {
    type V = SampleView;

    open spec fn view(&self) -> SampleView {
        SampleView {
            path: self.path@,
            filename: self.filename@,
            score: self.score as int,
            comparisons: self.comparisons as int,
        }
    }
}

impl DeepView for Sample {
    type V = SampleView;

    open spec fn deep_view(&self) -> SampleView {
        self@
    }
}

impl Clone for Sample {
    fn clone(&self) -> (copy: Self)
        ensures
            copy@ == self@,
    {
        Sample {
            path: self.path.clone(),
            filename: self.filename.clone(),
            score: self.score,
            comparisons: self.comparisons,
        }
    }
}

} // verus!
