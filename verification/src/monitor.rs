//! Decisions of the monitor's control loop: the time step, when to save the
//! learning data and when to log, whether a mitigation starts or ends, and
//! whether temperature changes are watched or polled.

use vstd::prelude::*;
use crate::constants::{LOG_RATE_LIMIT_NORMAL_SECS, SAVE_INTERVAL_EVENTS, SAVE_INTERVAL_SECS};
use crate::text::{parse_i32, parse_in_range, trim, trimmed};

verus! {

/// What one pass of the control loop does besides controlling.
#[derive(Debug, Clone, Copy, PartialEq, Eq, Structural)]
pub struct TickPlan {
    /// Seconds since the previous pass, at least one.
    pub dt_secs: u64,
    /// Whether to save the learning data now.
    pub save: bool,
    /// Whether to log the state now.
    pub log: bool,
}

/// The times of the loop's previous pass, last log and last save, and the
/// passes since that save.
#[derive(Debug, Clone, Copy)]
pub struct LoopClock {
    pub last_loop_time: u64,
    pub last_log_time: u64,
    pub events_since_last_save: usize,
    pub last_save_time: u64,
}

impl LoopClock {
    /// Fewer passes than the save interval have gone unsaved.
    pub open spec fn wf(self) -> bool {
        self.events_since_last_save < SAVE_INTERVAL_EVENTS
    }

    /// The clock of a loop started at `now`: nothing logged yet.
    pub fn new(now: u64) -> (r: Self)
        ensures
            r.wf(),
            r.last_loop_time == now,
            r.last_log_time == 0,
            r.events_since_last_save == 0,
            r.last_save_time == now,
    {
        LoopClock { last_loop_time: now, last_log_time: 0, events_since_last_save: 0, last_save_time: now }
    }

    /// One pass at time `now`: the step since the previous pass (one second
    /// where no time has passed); a save after `SAVE_INTERVAL_EVENTS` passes
    /// or `SAVE_INTERVAL_SECS` seconds, which restarts both counts; a log at
    /// most every `LOG_RATE_LIMIT_NORMAL_SECS` seconds.
    pub fn tick(&mut self, now: u64) -> (r: TickPlan)
        requires
            old(self).wf(),
        ensures
            final(self).wf(),
            r.dt_secs == if now > old(self).last_loop_time {
                (now - old(self).last_loop_time) as u64
            } else {
                1
            },
            r.save == (old(self).events_since_last_save + 1 >= SAVE_INTERVAL_EVENTS || now
                >= old(self).last_save_time + SAVE_INTERVAL_SECS),
            r.log == (now >= old(self).last_log_time + LOG_RATE_LIMIT_NORMAL_SECS),
            final(self).last_loop_time == now,
            final(self).events_since_last_save == if r.save {
                0
            } else {
                (old(self).events_since_last_save + 1) as usize
            },
            final(self).last_save_time == if r.save {
                now
            } else {
                old(self).last_save_time
            },
            final(self).last_log_time == if r.log {
                now
            } else {
                old(self).last_log_time
            },
    {
        let elapsed = now.saturating_sub(self.last_loop_time);
        let dt_secs = if elapsed == 0 {
            1
        } else {
            elapsed
        };
        self.last_loop_time = now;
        self.events_since_last_save = self.events_since_last_save + 1;
        let save = self.events_since_last_save >= SAVE_INTERVAL_EVENTS || now.saturating_sub(
            self.last_save_time,
        ) >= SAVE_INTERVAL_SECS;
        if save {
            self.events_since_last_save = 0;
            self.last_save_time = now;
        }
        let log = now.saturating_sub(self.last_log_time) >= LOG_RATE_LIMIT_NORMAL_SECS;
        if log {
            self.last_log_time = now;
        }
        TickPlan { dt_secs, save, log }
    }
}

/// The temperature that the battery temperature node's contents give, in
/// tenths of a degree Celsius; `None` where they hold no `i32`.
pub fn read_temperature(contents: &str) -> (r: Option<i32>)
    ensures
        r is Some <==> parse_in_range(trimmed(contents@), true, i32::MIN as int, i32::MAX as int) is Some,
        r is Some ==> r->0 as int == parse_in_range(trimmed(contents@), true, i32::MIN as int, i32::MAX as int)->0,
{
    parse_i32(trim(contents))
}

/// Whether a new throttling intensity starts or ends a mitigation.
#[derive(Debug, Clone, Copy, PartialEq, Eq, Structural)]
pub enum MitigationChange {
    Start,
    End,
    Keep,
}

/// The change when the intensity goes from active (`was_active`) or not to
/// active (`now_active`) or not.
pub fn mitigation_change(now_active: bool, was_active: bool) -> (r: MitigationChange)
    ensures
        r == if now_active && !was_active {
            MitigationChange::Start
        } else if !now_active && was_active {
            MitigationChange::End
        } else {
            MitigationChange::Keep
        },
{
    if now_active && !was_active {
        MitigationChange::Start
    } else if !now_active && was_active {
        MitigationChange::End
    } else {
        MitigationChange::Keep
    }
}

/// How the loop learns of temperature changes.
#[derive(Debug, Clone, Copy, PartialEq, Eq, Structural)]
pub enum RunMode {
    /// Waits on an inotify watch of the temperature node.
    Inotify,
    /// Reads the temperature every few seconds.
    Poll,
}

/// What a wait on the watch gave.
#[derive(Debug, Clone, Copy, PartialEq, Eq, Structural)]
pub enum WatchEvent {
    /// The wait timed out.
    Timeout,
    /// The watch became readable; whether it held change events.
    Ready { has_events: bool },
    /// The wait failed.
    Failed,
}

/// The mode to start in: watching where the temperature node exists.
pub fn initial_mode(node_exists: bool) -> (r: RunMode)
    ensures
        r == if node_exists {
            RunMode::Inotify
        } else {
            RunMode::Poll
        },
{
    if node_exists {
        RunMode::Inotify
    } else {
        RunMode::Poll
    }
}

/// In watch mode, after a wait: whether to handle the temperature now, and
/// the next mode. A timeout or a change is handled; a failed wait falls back
/// to polling.
pub fn after_watch(event: WatchEvent) -> (r: (RunMode, bool))
    ensures
        r == match event {
            WatchEvent::Timeout => (RunMode::Inotify, true),
            WatchEvent::Ready { has_events } => (RunMode::Inotify, has_events),
            WatchEvent::Failed => (RunMode::Poll, false),
        },
{
    match event {
        WatchEvent::Timeout => (RunMode::Inotify, true),
        WatchEvent::Ready { has_events } => (RunMode::Inotify, has_events),
        WatchEvent::Failed => (RunMode::Poll, false),
    }
}

/// In poll mode, after a poll: back to watching once a watch could be set
/// up on the temperature node.
pub fn after_poll(watch_set_up: bool) -> (r: RunMode)
    ensures
        r == if watch_set_up {
            RunMode::Inotify
        } else {
            RunMode::Poll
        },
{
    if watch_set_up {
        RunMode::Inotify
    } else {
        RunMode::Poll
    }
}

} // verus!
