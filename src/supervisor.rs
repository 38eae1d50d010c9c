use vstd::prelude::*;

verus! {

/// Pause between a failed installation attempt and the next one.
pub const BACKOFF_MILLIS: u64 = 2000;

/// Length of one bounded run of the event pump; the tap is re-enabled after
/// every run, whether or not the OS reported it disabled.
pub const PUMP_QUANTUM_MILLIS: u64 = 5000;

/// Why an installation attempt ended.
#[derive(Clone, Copy, Debug, PartialEq, Eq, Structural)]
pub enum TapError {
    /// The OS refused to create the tap (typically: permission not granted).
    TapCreation,
    /// The tap's run-loop source could not be created.
    RunLoopSource,
    /// The run loop stopped entirely; the tap and its port are assumed invalid.
    RunLoopExited,
}

/// How one bounded run of the event pump ended.
#[derive(Clone, Copy, Debug, PartialEq, Eq, Structural)]
pub enum PumpOutcome {
    /// The run loop has no sources left and terminated.
    Finished,
    /// The run loop was stopped from inside.
    Stopped,
    /// The quantum elapsed.
    TimedOut,
    /// A source was handled.
    HandledSource,
}

/// Verdict after one bounded pump run (the caller has already re-enabled the
/// tap): keep pumping, or give up this attempt because the run loop is gone.
pub fn after_pump(outcome: PumpOutcome) -> (r: Result<(), TapError>)
    ensures
        outcome == PumpOutcome::Finished ==> r == Err::<(), TapError>(TapError::RunLoopExited),
        outcome != PumpOutcome::Finished ==> r == Ok::<(), TapError>(()),
{
    match outcome {
        PumpOutcome::Finished => Err(TapError::RunLoopExited),
        _ => Ok(()),
    }
}

/// The retry-forever supervision policy, with a count of the attempts that
/// have ended (kept for diagnostics; it never limits retries).
pub struct Supervisor {
    ended: u64,
}

impl View for Supervisor {
    type V = nat;

    closed spec fn view(&self) -> nat {
        self.ended as nat
    }
}

/// `n + 1`, held at the largest `u64`.
pub open spec fn bumped(n: nat) -> nat {
    if n < u64::MAX {
        n + 1
    } else {
        n
    }
}

impl Supervisor {
    pub fn new() -> (r: Supervisor)
        ensures
            r@ == 0,
    {
        Supervisor { ended: 0 }
    }

    /// Installation attempts that have ended so far.
    pub fn ended_attempts(&self) -> (r: u64)
        ensures
            r == self@,
    {
        self.ended
    }

    /// Milliseconds to wait before installing afresh, once an attempt has
    /// returned. Supervision never ends: a clean return means the run loop
    /// exited, which leaves the tap as unusable as any failure, so every
    /// attempt, whatever it returned and however many came before, gets the
    /// same backoff.
    pub fn after_attempt(&mut self) -> (r: u64)
        ensures
            r == BACKOFF_MILLIS,
            final(self)@ == bumped(old(self)@),
    {
        if self.ended < u64::MAX {
            self.ended = self.ended + 1;
        }
        BACKOFF_MILLIS
    }
}

} // verus!
