use vstd::prelude::*;

verus! {

/// Phase of the capture engine slot.
#[derive(Clone, Copy, Debug, PartialEq, Eq, Structural)]
pub enum Phase {
    /// No engine runs; the next `try_start` may succeed.
    Idle,
    /// An engine was started for the current iteration and has not finished.
    Running,
    /// Cancellation was requested; the engine may still be draining.
    Cancelling,
}

/// `try_start` found an engine already active.
#[derive(Clone, Copy, Debug, PartialEq, Eq, Structural)]
pub struct Busy;

/// The operations that act on a recording state.
#[derive(Clone, Copy, Debug, PartialEq, Eq, Structural)]
pub enum StateOp {
    TryStart,
    Cancel,
    Finish,
    Reset,
}

/// Whether a phase counts as "an engine is active".
pub open spec fn active(p: Phase) -> bool {
    p != Phase::Idle
}

/// Phase after one operation.
pub open spec fn next_phase(p: Phase, op: StateOp) -> Phase {
    match op {
        StateOp::TryStart => if p == Phase::Idle { Phase::Running } else { p },
        StateOp::Cancel => if p == Phase::Running { Phase::Cancelling } else { p },
        StateOp::Finish => Phase::Idle,
        StateOp::Reset => Phase::Idle,
    }
}

/// Whether an operation is a `try_start` that succeeds.
pub open spec fn starts(p: Phase, op: StateOp) -> bool {
    op == StateOp::TryStart && p == Phase::Idle
}

/// Phase after a sequence of operations.
pub open spec fn run(p: Phase, ops: Seq<StateOp>) -> Phase
    decreases ops.len(),
{
    if ops.len() == 0 {
        p
    } else {
        next_phase(run(p, ops.drop_last()), ops.last())
    }
}

/// Number of successful `try_start` calls in a sequence of operations.
pub open spec fn start_count(p: Phase, ops: Seq<StateOp>) -> nat
    decreases ops.len(),
{
    if ops.len() == 0 {
        0
    } else {
        start_count(p, ops.drop_last()) + if starts(run(p, ops.drop_last()), ops.last()) {
            1nat
        } else {
            0nat
        }
    }
}

/// Shared record of whether a capture engine is active, with its
/// cancellation flag. Holders serialise access through one lock.
#[derive(Debug)]
pub struct RecordingState {
    phase: Phase,
}

impl RecordingState {
    pub closed spec fn phase_spec(&self) -> Phase {
        self.phase
    }

    /// A state with no engine active.
    pub fn new() -> (r: RecordingState)
        ensures
            r.phase_spec() == Phase::Idle,
    {
        RecordingState { phase: Phase::Idle }
    }

    pub fn phase(&self) -> (r: Phase)
        ensures
            r == self.phase_spec(),
    {
        self.phase
    }

    /// Whether an engine is active (running or draining after a cancel).
    pub fn is_running(&self) -> (r: bool)
        ensures
            r == active(self.phase_spec()),
    {
        self.phase != Phase::Idle
    }

    /// Whether the active engine has been asked to stop.
    pub fn is_cancelled(&self) -> (r: bool)
        ensures
            r == (self.phase_spec() == Phase::Cancelling),
    {
        self.phase == Phase::Cancelling
    }

    /// Claims the engine slot: succeeds and marks it running when idle,
    /// reports `Busy` and changes nothing otherwise.
    pub fn try_start(&mut self) -> (r: Result<(), Busy>)
        ensures
            r is Ok <==> starts(old(self).phase_spec(), StateOp::TryStart),
            final(self).phase_spec() == next_phase(old(self).phase_spec(), StateOp::TryStart),
    {
        if self.phase == Phase::Idle {
            self.phase = Phase::Running;
            Ok(())
        } else {
            Err(Busy)
        }
    }

    /// Asks the active engine to stop. Idempotent, and a no-op when idle.
    pub fn cancel(&mut self)
        ensures
            final(self).phase_spec() == next_phase(old(self).phase_spec(), StateOp::Cancel),
    {
        if self.phase == Phase::Running {
            self.phase = Phase::Cancelling;
        }
    }

    /// Records that the engine task has returned.
    pub fn finish(&mut self)
        ensures
            final(self).phase_spec() == next_phase(old(self).phase_spec(), StateOp::Finish),
    {
        self.phase = Phase::Idle;
    }

    /// Clears the state back to idle, ready for the next iteration.
    pub fn reset(&mut self)
        ensures
            final(self).phase_spec() == next_phase(old(self).phase_spec(), StateOp::Reset),
    {
        self.phase = Phase::Idle;
    }
}

/// Between a successful `try_start` and the next `reset` (or the engine's
/// return), no further `try_start` succeeds: along any sequence of
/// `try_start` and `cancel` calls at most one `try_start` succeeds, and none
/// does once an engine is active.
pub proof fn law_single_instance(p: Phase, ops: Seq<StateOp>)
    requires
        forall|i: int|
            0 <= i < ops.len() ==> (ops[i] == StateOp::TryStart || ops[i] == StateOp::Cancel),
    ensures
        start_count(p, ops) <= 1,
        active(p) ==> start_count(p, ops) == 0,
        ops.len() > 0 && ops[0] == StateOp::TryStart ==> active(run(p, ops)),
    decreases ops.len(),
{
    if ops.len() > 0 {
        let pre = ops.drop_last();
        assert forall|i: int| 0 <= i < pre.len() implies (pre[i] == StateOp::TryStart
            || pre[i] == StateOp::Cancel) by {
            assert(pre[i] == ops[i]);
        }
        law_single_instance(p, pre);
        lemma_stays_active(p, pre);
        if pre.len() > 0 {
            assert(pre[0] == ops[0]);
        }
    }
}

/// Once active, `try_start` and `cancel` keep the state active; and if the
/// run ever starts an engine the result is active.
proof fn lemma_stays_active(p: Phase, ops: Seq<StateOp>)
    requires
        forall|i: int|
            0 <= i < ops.len() ==> (ops[i] == StateOp::TryStart || ops[i] == StateOp::Cancel),
    ensures
        active(p) ==> active(run(p, ops)),
        start_count(p, ops) > 0 ==> active(run(p, ops)),
    decreases ops.len(),
{
    if ops.len() > 0 {
        let pre = ops.drop_last();
        assert forall|i: int| 0 <= i < pre.len() implies (pre[i] == StateOp::TryStart
            || pre[i] == StateOp::Cancel) by {
            assert(pre[i] == ops[i]);
        }
        lemma_stays_active(p, pre);
        assert(ops.last() == ops[ops.len() - 1]);
    }
}

/// `n` calls of `cancel` in a row.
pub open spec fn cancels(n: nat) -> Seq<StateOp> {
    Seq::new(n, |i: int| StateOp::Cancel)
}

/// Calling `cancel` any number of times (at least once) leaves the state
/// where one call leaves it, and on an idle state it changes nothing.
pub proof fn law_idempotent_cancel(p: Phase, n: nat)
    requires
        n >= 1,
    ensures
        run(p, cancels(n)) == next_phase(p, StateOp::Cancel),
        next_phase(next_phase(p, StateOp::Cancel), StateOp::Cancel) == next_phase(p, StateOp::Cancel),
        next_phase(Phase::Idle, StateOp::Cancel) == Phase::Idle,
        start_count(p, cancels(n)) == 0,
    decreases n,
{
    let ops = cancels(n);
    assert(ops.last() == StateOp::Cancel);
    if n > 1 {
        law_idempotent_cancel(p, (n - 1) as nat);
        assert(ops.drop_last() =~= cancels((n - 1) as nat));
    } else {
        assert(ops.drop_last() =~= Seq::<StateOp>::empty());
        assert(start_count(p, Seq::<StateOp>::empty()) == 0);
    }
    assert(!starts(run(p, ops.drop_last()), ops.last()));
}

} // verus!
