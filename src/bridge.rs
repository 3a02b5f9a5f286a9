use vstd::prelude::*;

verus! {

/// Frames the queue between capture and main loop holds.
pub const QUEUE_CAPACITY: usize = 4096;

/// At most one overflow warning per this many milliseconds.
pub const WARNING_INTERVAL: i64 = 10_000;

/// Attempts to get a store connection before a frame's writes are dropped.
pub const CONNECT_ATTEMPTS: u32 = 3;

/// Pause between two attempts, in milliseconds.
pub const CONNECT_BACKOFF: u64 = 1000;

/// Whether another attempt follows `failures` failed ones.
pub fn retry_connection(failures: u32) -> (r: bool)
    ensures
        r == (failures < CONNECT_ATTEMPTS),
{
    failures < CONNECT_ATTEMPTS
}

/// Counts frames dropped on a full queue and paces the warnings about them.
#[derive(Clone, Copy, Debug, PartialEq, Eq, Structural)]
pub struct DropCounter {
    /// Frames dropped since the last warning.
    pub dropped: u64,
    /// When the last warning was given.
    pub last_warning: Option<i64>,
}

impl DropCounter {
    pub fn new() -> (r: DropCounter)
        ensures
            r.dropped == 0,
            r.last_warning.is_none(),
    {
        DropCounter { dropped: 0, last_warning: None }
    }

    /// Records a dropped frame at `now`. When no warning was given in the
    /// last `WARNING_INTERVAL` milliseconds, returns how many frames were
    /// dropped since the last one (this one included) and starts over.
    pub fn record_drop(&mut self, now: i64) -> (r: Option<u64>)
        ensures
            ({
                let total = if old(self).dropped == u64::MAX { u64::MAX as int } else { old(self).dropped + 1 };
                let due = match old(self).last_warning {
                    None => true,
                    Some(t) => now as int - t as int >= WARNING_INTERVAL,
                };
                if due {
                    &&& r == Some(total as u64)
                    &&& final(self).dropped == 0
                    &&& final(self).last_warning == Some(now)
                } else {
                    &&& r.is_none()
                    &&& final(self).dropped == total
                    &&& final(self).last_warning == old(self).last_warning
                }
            }),
    {
        let total = if self.dropped == u64::MAX { u64::MAX } else { self.dropped + 1 };
        let due = match self.last_warning {
            None => true,
            Some(t) => (now as i128) - (t as i128) >= WARNING_INTERVAL as i128,
        };
        if due {
            self.dropped = 0;
            self.last_warning = Some(now);
            Some(total)
        } else {
            self.dropped = total;
            None
        }
    }
}

} // verus!
