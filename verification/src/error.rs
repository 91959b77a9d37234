use vstd::prelude::*;

verus! {

/// Why a transition could not be built, chained or run.
#[derive(Clone, Copy, Debug, PartialEq, Eq, Structural)]
pub enum TransitionError {
    /// The parameters ask for the same fact more than once.
    DuplicateRequirement,
    /// The result holds the same fact more than once.
    DuplicateProduction,
    /// Both halves of a chain require a fact that the first half does not
    /// put back.
    UnsatisfiableReorder,
    /// The state lacks a fact that the transition requires.
    MissingRequirement,
}

impl TransitionError {
    /// A sentence that describes the error.
    pub fn message(&self) -> (text: &'static str)
        ensures
            text@ == self.spec_message(),
    {
        match self {
            TransitionError::DuplicateRequirement => "Transition requires the same truth multiple times",
            TransitionError::DuplicateProduction => "Transition produces the same id multiple times.",
            TransitionError::UnsatisfiableReorder => "Both transitions require the same parameter, but the first transition does not produce it.",
            TransitionError::MissingRequirement => "Missing a required truth",
        }
    }

    /// The characters of [`TransitionError::message`].
    pub open spec fn spec_message(&self) -> Seq<char> {
        match self {
            TransitionError::DuplicateRequirement => "Transition requires the same truth multiple times"@,
            TransitionError::DuplicateProduction => "Transition produces the same id multiple times."@,
            TransitionError::UnsatisfiableReorder => "Both transitions require the same parameter, but the first transition does not produce it."@,
            TransitionError::MissingRequirement => "Missing a required truth"@,
        }
    }
}

} // verus!
