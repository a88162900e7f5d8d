//! Submission order: every pass of the plan in plan order, then the copy of
//! the output into staging memory.

use vstd::prelude::*;

verus! {

/// One command buffer handed to the queue.
#[derive(Clone, Copy, Debug, PartialEq, Eq, Structural)]
pub enum Submission {
    /// The dispatch of the pass at `index` of the plan.
    Pass { index: usize },
    /// The copy of the output buffer into the staging buffer.
    Copy,
}

/// The submission that comes after `issued` earlier ones in a session with
/// `passes` passes: the passes in order, then the copy, then nothing.
pub open spec fn planned(passes: nat, issued: nat) -> Option<Submission> {
    if issued < passes {
        Some(Submission::Pass { index: issued as usize })
    } else if issued == passes {
        Some(Submission::Copy)
    } else {
        None
    }
}

/// Everything a session with `passes` passes submits, in order.
pub open spec fn submission_order(passes: nat) -> Seq<Submission> {
    Seq::new(passes + 1, |k: int| planned(passes, k as nat)->Some_0)
}

/// The mathematical content of a [`SubmissionSequencer`].
pub struct SequencerModel {
    pub passes: nat,
    pub issued: nat,
}

/// Keeps track of how far the submissions of one session have come.
#[derive(Clone, Copy, Debug, PartialEq, Eq)]
pub struct SubmissionSequencer {
    passes: usize,
    submitted: usize,
    copied: bool,
}

impl View for SubmissionSequencer {
    type V = SequencerModel;

    closed spec fn view(&self) -> SequencerModel {
        SequencerModel {
            passes: self.passes as nat,
            issued: if self.copied {
                self.submitted as nat + 1
            } else {
                self.submitted as nat
            },
        }
    }
}

impl SubmissionSequencer {
    #[verifier::type_invariant]
    spec fn in_range(&self) -> bool {
        self.submitted <= self.passes && (self.copied ==> self.submitted == self.passes)
    }

    /// A sequencer for a plan of `passes` passes, with nothing submitted yet.
    pub fn new(passes: usize) -> (sequencer: SubmissionSequencer)
        ensures
            sequencer@ == (SequencerModel { passes: passes as nat, issued: 0 }),
    {
        SubmissionSequencer { passes, submitted: 0, copied: false }
    }

    /// The submission that is due next, or `None` once the copy is out.
    pub fn due(&self) -> (next: Option<Submission>)
        ensures
            next == planned(self@.passes, self@.issued),
            self@.issued <= self@.passes + 1,
            self@.passes <= usize::MAX,
    {
        proof {
            use_type_invariant(self);
        }
        if self.copied {
            None
        } else if self.submitted < self.passes {
            Some(Submission::Pass { index: self.submitted })
        } else {
            Some(Submission::Copy)
        }
    }

    /// Records that the submission that was due has been handed to the
    /// queue. Once the copy is out this changes nothing.
    pub fn advance(self) -> (next: SubmissionSequencer)
        ensures
            next@.passes == self@.passes,
            next@.issued == if self@.issued <= self@.passes {
                self@.issued + 1
            } else {
                self@.issued
            },
    {
        proof {
            use_type_invariant(&self);
        }
        if self.copied {
            self
        } else if self.submitted < self.passes {
            SubmissionSequencer {
                passes: self.passes,
                submitted: self.submitted + 1,
                copied: false,
            }
        } else {
            SubmissionSequencer { passes: self.passes, submitted: self.submitted, copied: true }
        }
    }

    /// How many passes have been handed to the queue.
    pub fn passes_submitted(&self) -> (count: usize)
        ensures
            count == if self@.issued <= self@.passes {
                self@.issued
            } else {
                self@.passes
            },
    {
        proof {
            use_type_invariant(self);
        }
        self.submitted
    }

    /// Whether the copy, and with it every pass, has been submitted.
    pub fn is_drained(&self) -> (drained: bool)
        ensures
            drained == (self@.issued == self@.passes + 1),
    {
        proof {
            use_type_invariant(self);
        }
        self.copied
    }
}

/// Passes are submitted in plan order and the copy comes after all of them.
pub proof fn lemma_copy_follows_passes(passes: nat, earlier: int, later: int)
    requires
        0 <= earlier < later <= passes,
    ensures
        submission_order(passes)[earlier] == (Submission::Pass { index: earlier as usize }),
        later < passes ==> submission_order(passes)[later] == (Submission::Pass {
            index: later as usize,
        }),
        later == passes ==> submission_order(passes)[later] == Submission::Copy,
        submission_order(passes).len() == passes + 1,
{
}

} // verus!
