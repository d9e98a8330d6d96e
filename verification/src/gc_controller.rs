//! When the collector runs: mutators request cycles and wait for them, the
//! collector thread loops, running a cycle per request, until shutdown.
//! The state below is what the controller keeps under its lock; waking
//! and blocking threads is left to the caller.

use vstd::prelude::*;

verus! {

/// The controller's state.
pub struct GCController {
    pub is_running: bool,
    pub is_requested: bool,
    pub is_shutting_down: bool,
    /// Number of cycles finished so far.
    pub finished_count: u64,
}

/// Whom to wake after a change of state.
#[derive(Debug, PartialEq, Eq, Structural)]
pub enum Wake {
    /// The collector thread, waiting for a request.
    Collector,
    /// The threads waiting for a cycle to finish.
    Waiters,
}

impl GCController {
    pub fn new() -> (r: GCController)
        ensures
            !r.is_running,
            !r.is_requested,
            !r.is_shutting_down,
            r.finished_count == 0,
    {
        GCController {
            is_running: false,
            is_shutting_down: false,
            is_requested: false,
            finished_count: 0,
        }
    }

    /// Asks the collector thread to stop after its current cycle.
    pub fn shutdown(&mut self) -> (r: Wake)
        ensures
            *final(self) == (GCController { is_shutting_down: true, ..*old(self) }),
            *final(self) == apply(*old(self), Op::Shutdown),
            r == Wake::Collector,
    {
        self.is_shutting_down = true;
        Wake::Collector
    }

    /// Requests a cycle.
    pub fn start_cycle(&mut self) -> (r: Wake)
        ensures
            *final(self) == (GCController { is_requested: true, ..*old(self) }),
            *final(self) == apply(*old(self), Op::StartCycle),
            r == Wake::Collector,
    {
        self.is_requested = true;
        Wake::Collector
    }

    /// Requests a cycle and returns the number of cycles finished so far;
    /// the caller waits until `cycle_done_since` says a cycle has finished
    /// since.
    pub fn start_and_wait_cycle(&mut self) -> (r: u64)
        ensures
            *final(self) == (GCController { is_requested: true, ..*old(self) }),
            *final(self) == apply(*old(self), Op::StartAndWaitCycle),
            r == old(self).finished_count,
    {
        let cur_count = self.finished_count;
        self.is_requested = true;
        cur_count
    }

    /// Whether a cycle has finished since `start_and_wait_cycle` returned
    /// `cookie`.
    pub fn cycle_done_since(&self, cookie: u64) -> (r: bool)
        ensures
            r == (self.finished_count != cookie),
    {
        self.finished_count != cookie
    }

    /// Drops any pending request.
    pub fn clear_request(&mut self)
        ensures
            *final(self) == (GCController { is_requested: false, ..*old(self) }),
            *final(self) == apply(*old(self), Op::ClearRequest),
    {
        self.is_requested = false;
    }

    /// Whether the collector thread keeps looping.
    pub fn keep_looping(&self) -> (r: bool)
        ensures
            r == !self.is_shutting_down,
    {
        !self.is_shutting_down
    }

    /// Whether the collector thread waits for a request.
    pub fn waits_for_request(&self) -> (r: bool)
        ensures
            r == !self.is_requested,
    {
        !self.is_requested
    }

    /// The collector thread takes a request and starts a cycle.
    pub fn begin_cycle(&mut self)
        requires
            old(self).is_requested,
        ensures
            *final(self) == (GCController {
                is_running: true,
                is_requested: false,
                ..*old(self)
            }),
            *final(self) == apply(*old(self), Op::BeginCycle),
    {
        self.is_running = true;
        self.is_requested = false;
    }

    /// The collector thread has finished a cycle.
    pub fn end_cycle(&mut self) -> (r: Wake)
        requires
            old(self).finished_count < u64::MAX,
        ensures
            *final(self) == (GCController {
                finished_count: (old(self).finished_count + 1) as u64,
                ..*old(self)
            }),
            *final(self) == apply(*old(self), Op::EndCycle),
            r == Wake::Waiters,
    {
        self.finished_count = self.finished_count + 1;
        Wake::Waiters
    }
}

/// One change of the controller's state, as made by the function of the
/// same name.
#[derive(Clone, Copy, PartialEq, Eq, Structural)]
pub enum Op {
    Shutdown,
    StartCycle,
    StartAndWaitCycle,
    ClearRequest,
    BeginCycle,
    EndCycle,
}

/// The state after `op`.
pub open spec fn apply(s: GCController, op: Op) -> GCController {
    match op {
        Op::Shutdown => GCController { is_shutting_down: true, ..s },
        Op::StartCycle => GCController { is_requested: true, ..s },
        Op::StartAndWaitCycle => GCController { is_requested: true, ..s },
        Op::ClearRequest => GCController { is_requested: false, ..s },
        Op::BeginCycle => GCController { is_running: true, is_requested: false, ..s },
        Op::EndCycle => GCController { finished_count: (s.finished_count + 1) as u64, ..s },
    }
}

/// The state after each of `ops` in turn.
pub open spec fn run(s: GCController, ops: Seq<Op>) -> GCController
    decreases ops.len(),
{
    if ops.len() == 0 {
        s
    } else {
        apply(run(s, ops.drop_last()), ops.last())
    }
}

/// Number of cycles `ops` ends.
pub open spec fn cycles_ended(ops: Seq<Op>) -> nat
    decreases ops.len(),
{
    if ops.len() == 0 {
        0
    } else {
        cycles_ended(ops.drop_last()) + if ops.last() == Op::EndCycle {
            1nat
        } else {
            0nat
        }
    }
}

/// A mutator that requested a cycle with `start_and_wait_cycle`, from state
/// `s`, is released by `cycle_done_since` exactly once the collector has
/// ended a cycle since, whatever else happened meanwhile: the count of
/// finished cycles grows by one per cycle ended and by nothing else.
pub proof fn lemma_waiter_released(s: GCController, ops: Seq<Op>)
    requires
        s.finished_count + cycles_ended(ops) <= u64::MAX,
    ensures
        run(apply(s, Op::StartAndWaitCycle), ops).finished_count == s.finished_count + cycles_ended(
            ops,
        ),
        (run(apply(s, Op::StartAndWaitCycle), ops).finished_count != s.finished_count)
            <==> cycles_ended(ops) > 0,
    decreases ops.len(),
{
    if ops.len() > 0 {
        lemma_waiter_released(s, ops.drop_last());
    }
}

} // verus!
