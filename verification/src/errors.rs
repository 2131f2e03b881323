use vstd::prelude::*;

verus! {

/// Why an operation on an election was rejected. A rejected operation changes
/// nothing.
#[derive(Clone, Copy, Debug, PartialEq, Eq, Structural)]
pub enum Errors {
    /// A vote arrived after the election's window.
    ElectionHasEnded,
    /// A close was asked for while the window is still open.
    ElectionHasNotEnded,
    /// A name or a description is longer than its bound.
    MaxStrLen,
    /// More candidates were given than an election has slots.
    MaxNoOfCandidatesExceeded,
    /// A vote names nobody among the election's candidates.
    CandidateDoesNotExist,
    /// A vote would carry its counter past the largest count a slot can hold.
    VoteOverflow,
}

impl Errors {
    /// The text shown for this error.
    pub open spec fn text(self) -> Seq<char> {
        match self {
            Errors::ElectionHasEnded => "Election has ended"@,
            Errors::ElectionHasNotEnded => "Election has not ended"@,
            Errors::MaxStrLen => "String is too long"@,
            Errors::MaxNoOfCandidatesExceeded => "Exceeds max number of candidates"@,
            Errors::CandidateDoesNotExist => "Candidate does not exist"@,
            Errors::VoteOverflow => "Vote count overflows"@,
        }
    }

    /// The text shown for this error.
    pub fn message(&self) -> (r: &'static str)
        ensures
            r@ == self.text(),
    {
        match self {
            Errors::ElectionHasEnded => "Election has ended",
            Errors::ElectionHasNotEnded => "Election has not ended",
            Errors::MaxStrLen => "String is too long",
            Errors::MaxNoOfCandidatesExceeded => "Exceeds max number of candidates",
            Errors::CandidateDoesNotExist => "Candidate does not exist",
            Errors::VoteOverflow => "Vote count overflows",
        }
    }
}

} // verus!
