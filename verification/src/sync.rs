//! Events and completions: what a waiter is told, given the state it woke
//! up to. Locking, condition variables and clocks are the caller's.

use std::time::Duration;

use vstd::prelude::*;

verus! {

/// A counter of events, bumped by each notification.
pub struct Event {
    pub counter: u64,
}

/// The number of events seen at some point.
#[derive(Clone, Copy, Debug, PartialEq, Eq, Structural)]
pub struct EventCookie {
    pub count: u64,
}

impl Default for EventCookie {
    fn default() -> (r: Self)
        ensures
            r.count == 0,
    {
        EventCookie { count: 0 }
    }
}

/// How long a waiter waits.
pub enum Timeout {
    /// Wait forever.
    Infinite,
    /// Wait for the given duration.
    Duration(Duration),
    /// Do not wait, just poll.
    NoWait,
}

impl Event {
    pub fn new() -> (r: Self)
        ensures
            r.counter == 0,
    {
        Event { counter: 0 }
    }

    pub fn get_latest_event(&self) -> (r: EventCookie)
        ensures
            r.count == self.counter,
    {
        EventCookie { count: self.counter }
    }

    /// Whether a waiter that has seen `since` has nothing new yet.
    pub fn waits(&self, since: EventCookie) -> (r: bool)
        ensures
            r == (self.counter == since.count),
    {
        self.counter == since.count
    }

    /// What a waiter that has seen `since` is told once its wait ends:
    /// `entry` is the latest event when it started waiting, `self` the state
    /// it ends with, and `timed_out` whether a timed wait ran out. A wait
    /// that ran out, or a poll that found nothing new, gives `Err` with the
    /// event seen on entry; otherwise `Ok` with the latest event. Either way
    /// the cookie returned is the latest event: a wait only runs out while
    /// nothing new has happened since `since`.
    pub fn wait_with_timeout(
        &self,
        since: EventCookie,
        timeout: &Timeout,
        entry: EventCookie,
        timed_out: bool,
    ) -> (r: Result<EventCookie, EventCookie>)
        requires
            timeout is Infinite ==> self.counter != since.count,
            timeout is Duration && !timed_out ==> self.counter != since.count,
            timeout is Duration && timed_out ==> self.counter == since.count && entry.count
                == self.counter,
            timeout is NoWait ==> self.counter == entry.count,
        ensures
            match r {
                Ok(c) => c.count == self.counter,
                Err(c) => c.count == self.counter,
            },
            timeout is Duration && timed_out ==> r == Err::<EventCookie, EventCookie>(entry),
            timeout is NoWait && self.counter == since.count ==> r == Err::<EventCookie, EventCookie>(
                entry,
            ),
            !(timeout is Duration && timed_out) && !(timeout is NoWait && self.counter
                == since.count) ==> r == Ok::<EventCookie, EventCookie>(
                EventCookie { count: self.counter },
            ),
    {
        match timeout {
            Timeout::Duration(_) => {
                if timed_out {
                    return Err(entry);
                }
            },
            Timeout::Infinite => {},
            Timeout::NoWait => {
                if self.counter == since.count {
                    return Err(entry);
                }
            },
        }
        Ok(EventCookie { count: self.counter })
    }

    /// What a waiter that waits forever is told: the latest event.
    pub fn wait(&self, since: EventCookie, entry: EventCookie) -> (r: EventCookie)
        requires
            self.counter != since.count,
        ensures
            r.count == self.counter,
    {
        match self.wait_with_timeout(since, &Timeout::Infinite, entry, false) {
            Ok(c) => c,
            Err(c) => c,
        }
    }

    /// Records one more event; the caller wakes the waiters.
    pub fn notify(&mut self)
        requires
            old(self).counter < u64::MAX,
        ensures
            final(self).counter == old(self).counter + 1,
    {
        self.counter = self.counter + 1;
    }
}

/// Something that completes once, until reset.
pub struct Completion {
    pub is_completed: bool,
}

impl Completion {
    pub fn new() -> (r: Self)
        ensures
            !r.is_completed,
    {
        Completion { is_completed: false }
    }

    /// Marks it complete; the caller wakes the waiters.
    pub fn complete(&mut self)
        ensures
            final(self).is_completed,
    {
        self.is_completed = true;
    }

    /// Whether a waiter whose deadline may have passed is told that it
    /// completed: a wait that timed out says it did not.
    pub fn wait_until(&self, timed_out: bool) -> (r: bool)
        requires
            !timed_out ==> self.is_completed,
        ensures
            r == !timed_out,
    {
        !timed_out
    }

    pub fn reset(&mut self)
        ensures
            !final(self).is_completed,
    {
        self.is_completed = false;
    }
}

} // verus!
