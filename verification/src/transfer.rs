//! Moving one packet over a stream that takes or gives a part at a time:
//! what to do after each attempt.

use crate::error::{BreadError, IoErrorKind};
use vstd::prelude::*;

verus! {

/// What one attempt to write to, or read from, the stream came to.
#[derive(Debug, Clone, PartialEq, Eq)]
pub enum Attempt {
    /// The stream is not ready; it will say when it is.
    Pending,
    /// The stream failed.
    Failed(BreadError),
    /// The stream took, or gave, this many bytes.
    Moved(usize),
}

/// What to do next.
#[derive(Debug, Clone, PartialEq, Eq)]
pub enum NextStep {
    /// The whole packet went through.
    Complete,
    /// Try again at once, from where the transfer stands.
    Again,
    /// Give way until the stream is ready, then try again from where the
    /// transfer stands.
    Suspend,
    /// Give up with this error.
    Fail(BreadError),
}

/// The direction of a transfer.
#[derive(Debug, Clone, Copy, PartialEq, Eq, Structural)]
pub enum Direction {
    Sending,
    Reading,
}

/// How far one packet has come. The count of bytes moved outlives a
/// suspension, so that nothing is written or read twice.
#[derive(Debug)]
pub struct Transfer {
    direction: Direction,
    total: usize,
    moved: usize,
}

/// A transfer as plain values.
pub struct TransferState {
    pub direction: Direction,
    pub total: nat,
    pub moved: nat,
}

/// The error of a stream that moves nothing though it is ready: a write of
/// zero bytes, or the end of the stream inside a packet.
pub open spec fn stalled(direction: Direction) -> BreadError {
    match direction {
        Direction::Sending => BreadError::Io(IoErrorKind::WriteZero),
        Direction::Reading => BreadError::Io(IoErrorKind::UnexpectedEof),
    }
}

impl TransferState {
    /// The bytes still to move.
    pub open spec fn remaining(self) -> nat {
        (self.total - self.moved) as nat
    }

    /// The step that follows `attempt`. Bytes moved beyond the packet's end
    /// count as far as the end.
    pub open spec fn next_step(self, attempt: Attempt) -> NextStep {
        match attempt {
            Attempt::Pending => NextStep::Suspend,
            Attempt::Failed(e) => NextStep::Fail(e),
            Attempt::Moved(n) => if n == 0 {
                NextStep::Fail(stalled(self.direction))
            } else if n >= self.remaining() {
                NextStep::Complete
            } else {
                NextStep::Again
            },
        }
    }

    /// The state after `attempt`.
    pub open spec fn after(self, attempt: Attempt) -> TransferState {
        match attempt {
            Attempt::Moved(n) => TransferState {
                moved: if n >= self.remaining() {
                    self.total
                } else {
                    (self.moved + n) as nat
                },
                ..self
            },
            _ => self,
        }
    }
}

impl View for Transfer {
    type V = TransferState;

    closed spec fn view(&self) -> TransferState {
        TransferState {
            direction: self.direction,
            total: self.total as nat,
            moved: self.moved as nat,
        }
    }
}

impl Transfer {
    /// Nothing has moved beyond the packet's end.
    pub closed spec fn wf(&self) -> bool {
        self.moved <= self.total
    }

    /// A transfer of `total` bytes of which `moved` went through before. A
    /// count beyond the total stands for the total.
    pub fn resume(direction: Direction, total: usize, moved: usize) -> (transfer: Self)
        ensures
            transfer.wf(),
            transfer@ == (TransferState {
                direction,
                total: total as nat,
                moved: if moved <= total {
                    moved as nat
                } else {
                    total as nat
                },
            }),
    {
        Transfer {
            direction,
            total,
            moved: if moved <= total {
                moved
            } else {
                total
            },
        }
    }

    /// How many bytes went through so far: where in the packet the next
    /// attempt starts.
    pub fn moved(&self) -> (moved: usize)
        requires
            self.wf(),
        ensures
            moved == self@.moved,
            moved <= self@.total,
    {
        self.moved
    }

    /// Whether nothing is left to move.
    pub fn is_complete(&self) -> (complete: bool)
        requires
            self.wf(),
        ensures
            complete == (self@.remaining() == 0),
    {
        self.moved == self.total
    }

    /// Takes note of an attempt and says what to do next.
    pub fn step(&mut self, attempt: Attempt) -> (next: NextStep)
        requires
            old(self).wf(),
        ensures
            final(self).wf(),
            next == old(self)@.next_step(attempt),
            final(self)@ == old(self)@.after(attempt),
    {
        match attempt {
            Attempt::Pending => NextStep::Suspend,
            Attempt::Failed(e) => NextStep::Fail(e),
            Attempt::Moved(n) => {
                if n == 0 {
                    NextStep::Fail(
                        match self.direction {
                            Direction::Sending => BreadError::Io(IoErrorKind::WriteZero),
                            Direction::Reading => BreadError::Io(IoErrorKind::UnexpectedEof),
                        },
                    )
                } else if n >= self.total - self.moved {
                    self.moved = self.total;
                    NextStep::Complete
                } else {
                    self.moved = self.moved + n;
                    NextStep::Again
                }
            },
        }
    }
}

/// A transfer never goes back, never goes beyond its packet, and is
/// complete exactly when it says so.
pub proof fn lemma_transfer_progress(state: TransferState, attempt: Attempt)
    requires
        state.moved <= state.total,
    ensures
        state.moved <= state.after(attempt).moved <= state.total,
        state.after(attempt).total == state.total,
        state.next_step(attempt) == NextStep::Complete ==> state.after(attempt).remaining() == 0,
        state.next_step(attempt) == NextStep::Again ==> state.after(attempt).moved > state.moved
            && state.after(attempt).remaining() > 0,
        state.next_step(attempt) == NextStep::Suspend ==> state.after(attempt) == state,
{
}

} // verus!
