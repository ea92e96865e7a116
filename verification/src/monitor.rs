//! The subscriber count of a system monitor: the polling task starts with the
//! first subscriber and is stopped when a subscriber leaves and none is left.

use vstd::prelude::*;

verus! {

/// The subscribers of a running monitor, or `None` when it is not running.
#[derive(Clone, Copy, PartialEq, Eq, Structural, Debug)]
pub struct MonitorState {
    pub subscribers: Option<u8>,
}

impl MonitorState {
    /// A monitor that is not running.
    pub fn new() -> (s: Self)
        ensures
            s.subscribers is None,
    {
        MonitorState { subscribers: None }
    }

    /// A subscriber joins. Returns whether the polling task must be started,
    /// which it must when the monitor was not running.
    pub fn subscribe(&mut self) -> (start: bool)
        requires
            old(self).subscribers matches Some(n) ==> n < u8::MAX,
        ensures
            start == old(self).subscribers is None,
            final(self).subscribers == (match old(self).subscribers {
                Some(n) => Some((n + 1) as u8),
                None => Some(1u8),
            }),
    {
        match self.subscribers {
            Some(n) => {
                self.subscribers = Some(n + 1);
                false
            },
            None => {
                self.subscribers = Some(1);
                true
            },
        }
    }

    /// A subscriber leaves. Returns whether the polling task must be
    /// stopped, which it must when it was the last one. The monitor is
    /// forgotten either way: the next subscriber starts it again.
    pub fn unsubscribe(&mut self) -> (stop: bool)
        requires
            old(self).subscribers matches Some(n) ==> n >= 1,
        ensures
            stop == (old(self).subscribers == Some(1u8)),
            final(self).subscribers is None,
    {
        match self.subscribers {
            Some(n) => {
                let left = n - 1;
                self.subscribers = None;
                left == 0
            },
            None => false,
        }
    }
}

} // verus!
