//! Stopping the world. Mutator threads that hold shared access are
//! counted as live; the collector takes exclusive access by making a lock
//! page unreadable and waiting until every live thread has faulted on it
//! at a safepoint, or has given up shared access. The counting is below;
//! the lock page, the fault handling and the message pipe are the
//! caller's.

use vstd::prelude::*;

verus! {

/// Messages from mutators to the collector.
#[derive(Debug, PartialEq, Eq, Structural)]
pub enum Command {
    /// A thread gave up shared access while the counter was locked.
    UnregisterThread,
}

/// What the collector is told while it waits for exclusive access.
#[derive(PartialEq, Eq, Structural)]
pub enum WaitEvent {
    /// A thread gave up shared access.
    Unregistered,
    /// A thread faulted on the lock page and is now parked.
    Pagefault,
}

/// The collector's count while it waits for exclusive access.
pub struct ExclusiveWait {
    pub live_count: u32,
    pub blocked_count: u32,
}

impl ExclusiveWait {
    /// Starts waiting with `live_count` live threads, none parked yet.
    pub fn new(live_count: u32) -> (r: Self)
        ensures
            r.live_count == live_count,
            r.blocked_count == 0,
    {
        ExclusiveWait { live_count, blocked_count: 0 }
    }

    /// Whether some live thread is not parked yet.
    pub fn waiting(&self) -> (r: bool)
        ensures
            r == (self.blocked_count < self.live_count),
    {
        self.blocked_count < self.live_count
    }

    /// Counts one event.
    pub fn on_event(&mut self, event: WaitEvent)
        requires
            event == WaitEvent::Unregistered ==> old(self).live_count > 0,
            event == WaitEvent::Pagefault ==> old(self).blocked_count < u32::MAX,
        ensures
            event == WaitEvent::Unregistered ==> *final(self) == (ExclusiveWait {
                live_count: (old(self).live_count - 1) as u32,
                ..*old(self)
            }),
            event == WaitEvent::Pagefault ==> *final(self) == (ExclusiveWait {
                blocked_count: (old(self).blocked_count + 1) as u32,
                ..*old(self)
            }),
    {
        match event {
            WaitEvent::Unregistered => {
                self.live_count = self.live_count - 1;
            },
            WaitEvent::Pagefault => {
                self.blocked_count = self.blocked_count + 1;
            },
        }
    }
}

/// The live counter after a thread takes shared access.
pub fn get_shared(live_count: u32) -> (r: u32)
    requires
        live_count < u32::MAX,
    ensures
        r == live_count + 1,
{
    live_count + 1
}

/// How a thread gives up shared access: straight on the counter when its
/// lock could be taken, otherwise by a message, since the collector may
/// hold the lock while it waits for this very thread.
pub fn disable_guard(live_count: Option<u32>) -> (r: Result<u32, Command>)
    requires
        live_count matches Some(n) ==> n > 0,
    ensures
        live_count matches Some(n) ==> r == Ok::<u32, Command>((n - 1) as u32),
        live_count is None ==> r == Err::<u32, Command>(Command::UnregisterThread),
{
    match live_count {
        Some(n) => Ok(n - 1),
        None => Err(Command::UnregisterThread),
    }
}

} // verus!
