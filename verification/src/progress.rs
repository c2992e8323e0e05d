//! Filling a buffer from a transport that delivers bytes piecemeal.

use vstd::prelude::*;

verus! {

/// What one attempt to read into the rest of the buffer came to.
#[derive(Debug, Clone, Copy, PartialEq, Eq, Structural)]
pub enum ReadOutcome {
    /// The transport handed over this many bytes.
    Received(usize),
    /// The transport had nothing to hand over yet; reading is to be tried again.
    WouldBlock,
    /// The transport failed; filling the buffer is given up.
    Failed,
}

/// What to do after an attempt to read.
#[derive(Debug, Clone, Copy, PartialEq, Eq, Structural)]
pub enum ReadStep {
    /// Read again into the part of the buffer that is still unfilled.
    Continue,
    /// The buffer is full.
    Complete,
    /// Give up and report the transport's error.
    Abort,
}

/// How far a buffer of a given length has been filled.
pub struct ReadProgress {
    filled: usize,
    target: usize,
}

/// The number of bytes filled after `outcome`, when `filled` of `target` were filled before.
/// A transport that claims more bytes than were asked for has filled the buffer.
pub open spec fn filled_after(filled: nat, target: nat, outcome: ReadOutcome) -> nat {
    match outcome {
        ReadOutcome::Received(n) => if filled + n >= target {
            target
        } else {
            (filled + n) as nat
        },
        _ => filled,
    }
}

/// The step that follows `outcome` when `filled` of `target` bytes are filled after it.
pub open spec fn step_after(filled: nat, target: nat, outcome: ReadOutcome) -> ReadStep {
    if outcome is Failed {
        ReadStep::Abort
    } else if filled == target {
        ReadStep::Complete
    } else {
        ReadStep::Continue
    }
}

/// Filling never goes back and never passes the end of the buffer; an attempt that would block,
/// that hands over nothing, or that fails leaves the buffer as filled as it was.
pub proof fn lemma_filling_is_monotone(filled: nat, target: nat, outcome: ReadOutcome)
    requires
        filled <= target,
    ensures
        filled <= filled_after(filled, target, outcome) <= target,
        (outcome is WouldBlock || outcome is Failed || outcome == ReadOutcome::Received(0))
            ==> filled_after(filled, target, outcome) == filled,
        step_after(filled_after(filled, target, outcome), target, outcome) is Complete
            <==> (filled_after(filled, target, outcome) == target && !(outcome is Failed)),
{
}

/// A failed read gives up, however much of the buffer is already filled; a read that would
/// block retries while the buffer is unfilled; a read completes the buffer exactly when it brings
/// the bytes received up to the buffer's length, and otherwise adds what it received.
pub proof fn lemma_read_steps(filled: nat, target: nat, n: usize)
    requires
        filled <= target,
    ensures
        step_after(filled_after(filled, target, ReadOutcome::Failed), target, ReadOutcome::Failed)
            == ReadStep::Abort,
        filled_after(filled, target, ReadOutcome::Failed) == filled,
        filled < target ==> step_after(
            filled_after(filled, target, ReadOutcome::WouldBlock),
            target,
            ReadOutcome::WouldBlock,
        ) == ReadStep::Continue,
        filled + n >= target ==> filled_after(filled, target, ReadOutcome::Received(n)) == target
            && step_after(
            filled_after(filled, target, ReadOutcome::Received(n)),
            target,
            ReadOutcome::Received(n),
        ) == ReadStep::Complete,
        filled + n < target ==> filled_after(filled, target, ReadOutcome::Received(n)) == filled
            + n && step_after(
            filled_after(filled, target, ReadOutcome::Received(n)),
            target,
            ReadOutcome::Received(n),
        ) == ReadStep::Continue,
{
}

impl ReadProgress {
    /// Bytes of the buffer filled so far.
    pub closed spec fn filled_spec(&self) -> nat {
        self.filled as nat
    }

    /// Length of the buffer to fill.
    pub closed spec fn target_spec(&self) -> nat {
        self.target as nat
    }

    #[verifier::type_invariant]
    spec fn within_target(&self) -> bool {
        self.filled <= self.target
    }

    /// Starts filling a buffer of `target` bytes, of which none is filled yet.
    pub fn new(target: usize) -> (progress: Self)
        ensures
            progress.filled_spec() == 0,
            progress.target_spec() == target,
    {
        ReadProgress { filled: 0, target }
    }

    /// Bytes of the buffer filled so far: the next read goes to the buffer from here on.
    pub fn filled(&self) -> (filled: usize)
        ensures
            filled == self.filled_spec(),
            filled <= self.target_spec(),
    {
        proof {
            use_type_invariant(self);
        }
        self.filled
    }

    /// Whether the whole buffer is filled.
    pub fn is_complete(&self) -> (complete: bool)
        ensures
            complete == (self.filled_spec() == self.target_spec()),
    {
        self.filled == self.target
    }

    /// Takes in what an attempt to read into the unfilled part came to, and says what to do next.
    pub fn record(&mut self, outcome: ReadOutcome) -> (step: ReadStep)
        ensures
            final(self).target_spec() == old(self).target_spec(),
            final(self).filled_spec() == filled_after(
                old(self).filled_spec(),
                old(self).target_spec(),
                outcome,
            ),
            step == step_after(final(self).filled_spec(), final(self).target_spec(), outcome),
            outcome is Failed ==> step == ReadStep::Abort && final(self).filled_spec() == old(self).filled_spec(),
            outcome is WouldBlock ==> final(self).filled_spec() == old(self).filled_spec() && (step == ReadStep::Complete <==> old(self).filled_spec() == old(self).target_spec()),
            outcome is WouldBlock && old(self).filled_spec() < old(self).target_spec() ==> step == ReadStep::Continue,
            outcome matches ReadOutcome::Received(n) ==> (old(self).filled_spec() + n >= old(self).target_spec() ==> step == ReadStep::Complete && final(self).filled_spec() == old(self).target_spec()),
            outcome matches ReadOutcome::Received(n) ==> (old(self).filled_spec() + n < old(self).target_spec() ==> step == ReadStep::Continue && final(self).filled_spec() == old(self).filled_spec() + n),
    {
        proof {
            use_type_invariant(&*self);
        }
        match outcome {
            ReadOutcome::Received(n) => {
                if n >= self.target - self.filled {
                    self.filled = self.target;
                } else {
                    self.filled = self.filled + n;
                }
            },
            _ => {},
        }
        match outcome {
            ReadOutcome::Failed => ReadStep::Abort,
            _ => if self.filled == self.target {
                ReadStep::Complete
            } else {
                ReadStep::Continue
            },
        }
    }
}

} // verus!
