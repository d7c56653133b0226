//! The per-task timer: a countdown or a stopwatch whose position is always
//! recomputed from one monotonic anchor, so it never drifts.

use crate::clock::whole_secs_since;
use std::time::Instant;
use vstd::prelude::*;

verus! {

/// Which way a timer counts.
#[derive(Clone, Copy, Debug, PartialEq, Eq, Structural)]
pub enum TimerMode {
    Countdown,
    Stopwatch,
}

/// Where a timer is in its life.
#[derive(Clone, Copy, Debug, PartialEq, Eq, Structural)]
pub enum TimerState {
    /// Never started, or reset.
    Idle,
    /// The heartbeat is advancing it.
    Running,
    /// Frozen; the last run segment is folded into the stored numbers.
    Paused,
    /// Countdown only: reached zero.
    Done,
}

/// Captured the instant a timer starts or resumes: every tick recomputes the
/// true position from this single reference instead of accumulating
/// per-tick rounding error.
#[derive(Clone, Copy, Debug)]
pub struct RunAnchor {
    /// Monotonic clock reading at the moment `Running` began.
    pub started_at: Instant,
    /// Seconds already accumulated before this run segment.
    pub base_secs: u64,
}

/// A countdown or stopwatch. `anchor` is runtime-only: it is never stored.
#[derive(Clone, Copy, Debug)]
pub struct Timer {
    pub mode: TimerMode,
    /// Configured length of a countdown; a stopwatch keeps it for a mode switch.
    pub duration_secs: u64,
    /// Countdown: seconds left (equal to the duration while idle).
    pub remaining_secs: u64,
    /// Seconds counted up (for a countdown: seconds spent).
    pub elapsed_secs: u64,
    pub state: TimerState,
    /// `Some` exactly while the timer is running.
    pub anchor: Option<RunAnchor>,
}

/// The default countdown length: one 25-minute pomodoro.
pub const DEFAULT_DURATION_SECS: u64 = 1500;

/// What one heartbeat did to a timer.
#[derive(Clone, Copy, Debug, PartialEq, Eq, Structural)]
pub enum Advance {
    /// The timer was not running: nothing changed and nothing is reported.
    Still,
    /// The timer moved and keeps running.
    Moved,
    /// The countdown reached zero on this heartbeat.
    Finished,
}

impl TimerState {
    pub open spec fn is_running(self) -> bool {
        self == TimerState::Running
    }
}

/// Seconds spent when a run segment of `run` seconds follows `base` seconds.
pub open spec fn spent(base: u64, run: u64) -> int {
    base + run
}

/// The seconds already banked by a timer that is about to (re)start: what a
/// countdown has used up, or what a stopwatch has counted.
pub open spec fn banked_secs(t: Timer) -> u64 {
    match t.mode {
        TimerMode::Countdown => if t.remaining_secs <= t.duration_secs {
            (t.duration_secs - t.remaining_secs) as u64
        } else {
            0
        },
        TimerMode::Stopwatch => t.elapsed_secs,
    }
}

/// The timer as it stands at rest after one of the commands (no anchor).
pub open spec fn at_rest(t: Timer, state: TimerState, elapsed: u64, remaining: u64) -> Timer {
    Timer { state, elapsed_secs: elapsed, remaining_secs: remaining, anchor: None, ..t }
}

/// `start` (also resume): a running or finished timer is left as it is;
/// otherwise it runs from `now` with the banked seconds as its base.
pub open spec fn started(t: Timer, now: Instant) -> Timer {
    if t.state == TimerState::Running || t.state == TimerState::Done {
        t
    } else {
        Timer {
            state: TimerState::Running,
            anchor: Some(RunAnchor { started_at: now, base_secs: banked_secs(t) }),
            ..t
        }
    }
}

/// One heartbeat `run` seconds after the anchor was taken.
pub open spec fn advanced(t: Timer, run: u64) -> Timer {
    if t.state == TimerState::Running && t.anchor is Some {
        let s = spent(t.anchor->0.base_secs, run);
        match t.mode {
            TimerMode::Stopwatch => Timer { elapsed_secs: s as u64, ..t },
            TimerMode::Countdown => if s >= t.duration_secs {
                at_rest(t, TimerState::Done, t.duration_secs, 0)
            } else {
                Timer {
                    elapsed_secs: s as u64,
                    remaining_secs: (t.duration_secs - s) as u64,
                    ..t
                }
            },
        }
    } else {
        t
    }
}

/// What a heartbeat reports for the timer.
pub open spec fn advance_report(t: Timer, run: u64) -> Advance {
    if t.state == TimerState::Running && t.anchor is Some {
        if t.mode == TimerMode::Countdown && spent(t.anchor->0.base_secs, run) >= t.duration_secs {
            Advance::Finished
        } else {
            Advance::Moved
        }
    } else {
        Advance::Still
    }
}

/// `pause` `run` seconds after the anchor: fold the segment into the stored
/// numbers (a countdown never past its duration) and drop the anchor.
pub open spec fn paused(t: Timer, run: u64) -> Timer {
    if t.state != TimerState::Running {
        t
    } else {
        match t.anchor {
            Some(a) => {
                let s = spent(a.base_secs, run);
                match t.mode {
                    TimerMode::Stopwatch => at_rest(t, TimerState::Paused, s as u64, t.remaining_secs),
                    TimerMode::Countdown => {
                        let c = if s <= t.duration_secs { s } else { t.duration_secs as int };
                        at_rest(t, TimerState::Paused, c as u64, (t.duration_secs - c) as u64)
                    },
                }
            },
            None => Timer { state: TimerState::Paused, ..t },
        }
    }
}

/// A clock reading of `reading` run seconds, held back so that `base` plus
/// the run does not overflow.
pub open spec fn held_back(reading: u64, base: u64) -> u64 {
    if reading <= u64::MAX - base {
        reading
    } else {
        (u64::MAX - base) as u64
    }
}

/// `reset`: idle at the configured start.
pub open spec fn reset_spec(t: Timer) -> Timer {
    at_rest(t, TimerState::Idle, 0, t.duration_secs)
}

/// `configure`: new mode and duration (a stopwatch is sent 0); then idle at
/// the start.
pub open spec fn configured(t: Timer, mode: TimerMode, duration_secs: u64) -> Timer {
    Timer {
        mode,
        duration_secs,
        state: TimerState::Idle,
        elapsed_secs: 0,
        remaining_secs: duration_secs,
        anchor: None,
    }
}

/// On resume from the global pause, a running timer counts on from the
/// position its last heartbeat folded, measured from `now`: the time spent
/// under the global pause is not counted.
pub open spec fn resumed(t: Timer, now: Instant) -> Timer {
    if t.state == TimerState::Running {
        Timer { anchor: Some(RunAnchor { started_at: now, base_secs: banked_secs(t) }), ..t }
    } else {
        t
    }
}

/// At boot a running timer comes back paused: its anchor cannot survive a
/// restart, and fast-forwarding over the time the app was closed is wrong.
pub open spec fn booted(t: Timer) -> Timer {
    if t.state == TimerState::Running {
        Timer { state: TimerState::Paused, anchor: None, ..t }
    } else {
        t
    }
}

impl Timer {
    /// A timer whose numbers are consistent with its state: the anchor is
    /// there exactly while running, a countdown's spent and remaining seconds
    /// add up to its duration, and only a countdown at zero is done.
    pub open spec fn wf(self) -> bool {
        &&& (self.state == TimerState::Running <==> self.anchor is Some)
        &&& self.mode == TimerMode::Countdown ==> self.elapsed_secs + self.remaining_secs
            == self.duration_secs
        &&& self.state == TimerState::Done ==> (self.mode == TimerMode::Countdown
            && self.remaining_secs == 0)
    }

    /// A heartbeat `run` seconds after the anchor cannot overflow the count.
    pub open spec fn can_advance(self, run: u64) -> bool {
        self.state == TimerState::Running && self.anchor is Some ==> spent(
            self.anchor->0.base_secs,
            run,
        ) <= u64::MAX
    }

    /// Start, or resume, at `now`. A running timer is left alone, and so is a
    /// finished countdown (it must be reset first).
    pub fn start(&mut self, now: Instant)
        ensures
            *final(self) == started(*old(self), now),
    {
        match self.state {
            TimerState::Running => return ,
            TimerState::Done => return ,
            _ => {},
        }
        let base = match self.mode {
            TimerMode::Countdown => self.duration_secs.saturating_sub(self.remaining_secs),
            TimerMode::Stopwatch => self.elapsed_secs,
        };
        self.anchor = Some(RunAnchor { started_at: now, base_secs: base });
        self.state = TimerState::Running;
    }

    /// Advance a running timer to `run` seconds after its anchor: a stopwatch
    /// counts up; a countdown counts down and finishes when the seconds spent
    /// reach its duration.
    pub fn advance(&mut self, run: u64) -> (report: Advance)
        requires
            old(self).can_advance(run),
        ensures
            *final(self) == advanced(*old(self), run),
            report == advance_report(*old(self), run),
    {
        if self.state != TimerState::Running {
            return Advance::Still;
        }
        match self.anchor {
            None => Advance::Still,
            Some(anchor) => {
                let s = anchor.base_secs + run;
                match self.mode {
                    TimerMode::Stopwatch => {
                        self.elapsed_secs = s;
                        Advance::Moved
                    },
                    TimerMode::Countdown => {
                        if s >= self.duration_secs {
                            self.remaining_secs = 0;
                            self.elapsed_secs = self.duration_secs;
                            self.state = TimerState::Done;
                            self.anchor = None;
                            Advance::Finished
                        } else {
                            self.elapsed_secs = s;
                            self.remaining_secs = self.duration_secs - s;
                            Advance::Moved
                        }
                    },
                }
            },
        }
    }

    /// Pause `run` seconds after the anchor: fold the in-flight segment into
    /// the stored numbers and drop the anchor. A timer that is not running
    /// is left alone.
    pub fn pause_after(&mut self, run: u64)
        requires
            old(self).can_advance(run),
        ensures
            *final(self) == paused(*old(self), run),
    {
        if self.state != TimerState::Running {
            return ;
        }
        match self.anchor {
            Some(anchor) => {
                let s = anchor.base_secs + run;
                match self.mode {
                    TimerMode::Stopwatch => {
                        self.elapsed_secs = s;
                    },
                    TimerMode::Countdown => {
                        let c = if s <= self.duration_secs {
                            s
                        } else {
                            self.duration_secs
                        };
                        self.elapsed_secs = c;
                        self.remaining_secs = self.duration_secs - c;
                    },
                }
                self.anchor = None;
            },
            None => {},
        }
        self.state = TimerState::Paused;
    }

    /// The run seconds of the current segment as read at `now`, held back
    /// where a longer run would overflow the count; 0 without an anchor. The
    /// reading of the monotonic clock may be any count.
    pub fn run_secs_at(&self, now: &Instant) -> (run: u64)
        ensures
            self.can_advance(run),
            self.anchor is None ==> run == 0,
            self.anchor is Some ==> exists|reading: u64|
                run == held_back(reading, self.anchor->0.base_secs),
    {
        match self.anchor {
            None => 0,
            Some(anchor) => {
                let reading = whole_secs_since(now, &anchor.started_at);
                let run = if reading <= u64::MAX - anchor.base_secs {
                    reading
                } else {
                    u64::MAX - anchor.base_secs
                };
                assert(run == held_back(reading, anchor.base_secs));
                run
            },
        }
    }

    /// Pause at `now` on the monotonic clock (see `pause_after`).
    pub fn pause(&mut self, now: &Instant)
        ensures
            exists|run: u64| old(self).can_advance(run) && *final(self) == paused(*old(self), run),
    {
        let run = self.run_secs_at(now);
        self.pause_after(run);
    }

    /// Back to idle at the configured start.
    pub fn reset(&mut self)
        ensures
            *final(self) == reset_spec(*old(self)),
            final(self).mode == old(self).mode,
            final(self).duration_secs == old(self).duration_secs,
            final(self).state == TimerState::Idle,
            final(self).elapsed_secs == 0,
            final(self).remaining_secs == old(self).duration_secs,
            final(self).anchor is None,
    {
        self.anchor = None;
        self.state = TimerState::Idle;
        self.elapsed_secs = 0;
        self.remaining_secs = self.duration_secs;
    }

    /// Set the mode and the duration (the window sends 0 for a stopwatch);
    /// then idle at the start.
    pub fn configure(&mut self, mode: TimerMode, duration_secs: u64)
        ensures
            *final(self) == configured(*old(self), mode, duration_secs),
            final(self).mode == mode,
            final(self).duration_secs == duration_secs,
            final(self).state == TimerState::Idle,
            final(self).elapsed_secs == 0,
            final(self).remaining_secs == duration_secs,
            final(self).anchor is None,
    {
        self.anchor = None;
        self.mode = mode;
        self.duration_secs = duration_secs;
        self.elapsed_secs = 0;
        self.remaining_secs = duration_secs;
        self.state = TimerState::Idle;
    }

    /// Resume from the global pause at `now`: a running timer is re-anchored
    /// at `now` on the seconds its last heartbeat folded.
    pub fn resume_after_global_pause(&mut self, now: Instant)
        ensures
            *final(self) == resumed(*old(self), now),
    {
        if self.state == TimerState::Running {
            let base = match self.mode {
                TimerMode::Countdown => self.duration_secs.saturating_sub(self.remaining_secs),
                TimerMode::Stopwatch => self.elapsed_secs,
            };
            self.anchor = Some(RunAnchor { started_at: now, base_secs: base });
        }
    }

    /// At boot, a timer that was running comes back paused with its folded
    /// numbers kept.
    pub fn suspend_for_boot(&mut self)
        ensures
            *final(self) == booted(*old(self)),
    {
        if self.state == TimerState::Running {
            self.state = TimerState::Paused;
            self.anchor = None;
        }
    }
}

/// Every timer command, and the heartbeat, keeps a consistent timer
/// consistent; the default timer is consistent.
pub proof fn lemma_timer_steps_keep_wf(
    t: Timer,
    now: Instant,
    run: u64,
    mode: TimerMode,
    duration_secs: u64,
)
    requires
        t.wf(),
        t.can_advance(run),
    ensures
        started(t, now).wf(),
        advanced(t, run).wf(),
        paused(t, run).wf(),
        reset_spec(t).wf(),
        configured(t, mode, duration_secs).wf(),
        booted(t).wf(),
        resumed(t, now).wf(),
        default_timer().wf(),
{
}

/// Resuming continues from the folded numbers: a consistent idle or paused
/// timer restarts with exactly the seconds it has counted as its base.
pub proof fn lemma_resume_continues_from_elapsed(t: Timer, now: Instant)
    requires
        t.wf(),
        t.state == TimerState::Idle || t.state == TimerState::Paused,
    ensures
        started(t, now).state == TimerState::Running,
        started(t, now).anchor == Some(RunAnchor { started_at: now, base_secs: t.elapsed_secs }),
        started(t, now).elapsed_secs == t.elapsed_secs,
        started(t, now).remaining_secs == t.remaining_secs,
{
}

/// Pausing folds the running segment exactly as a heartbeat at the same
/// moment would count it; a countdown paused past its end stops at zero.
pub proof fn lemma_pause_folds_like_heartbeat(t: Timer, run: u64)
    requires
        t.wf(),
        t.can_advance(run),
        t.state == TimerState::Running,
    ensures
        paused(t, run).elapsed_secs == advanced(t, run).elapsed_secs,
        paused(t, run).remaining_secs == advanced(t, run).remaining_secs,
        paused(t, run).state == TimerState::Paused,
        paused(t, run).anchor is None,
{
}

/// Reset always lands on the same idle timer, and a timer started after a
/// reset counts from zero.
pub proof fn lemma_reset_then_start_counts_from_zero(t: Timer, now: Instant)
    requires
        t.wf(),
    ensures
        reset_spec(reset_spec(t)) == reset_spec(t),
        reset_spec(t).state == TimerState::Idle,
        reset_spec(t).remaining_secs == t.duration_secs,
        reset_spec(t).elapsed_secs == 0,
        started(reset_spec(t), now).anchor == Some(RunAnchor { started_at: now, base_secs: 0 }),
{
}

/// Start is idempotent: starting a started timer changes nothing, and a
/// finished countdown stays finished until it is reset.
pub proof fn lemma_start_idempotent(t: Timer, now1: Instant, now2: Instant)
    ensures
        started(started(t, now1), now2) == started(t, now1),
        t.state == TimerState::Done ==> started(t, now1) == t,
{
}

/// A countdown only goes down as the clock moves on, and the heartbeat
/// that reaches its duration leaves it done at zero with the whole duration
/// spent.
pub proof fn lemma_countdown_only_goes_down(t: Timer, run1: u64, run2: u64)
    requires
        t.wf(),
        t.mode == TimerMode::Countdown,
        t.can_advance(run1),
        t.can_advance(run2),
        run1 <= run2,
    ensures
        advanced(t, run2).remaining_secs <= advanced(t, run1).remaining_secs,
        advanced(t, run1).elapsed_secs <= advanced(t, run2).elapsed_secs,
        advance_report(t, run1) == Advance::Finished ==> {
            &&& advanced(t, run1).state == TimerState::Done
            &&& advanced(t, run1).remaining_secs == 0
            &&& advanced(t, run1).elapsed_secs == t.duration_secs
            &&& advanced(t, run1).anchor is None
        },
{
}

/// Time spent under the global pause is not counted: after resuming, a
/// running timer's next heartbeat `run` seconds later stands at the
/// position it had when it was paused plus `run` (for a stopwatch, as long
/// as that count fits its 64-bit counter).
pub proof fn lemma_global_pause_not_counted(t: Timer, now: Instant, run: u64)
    requires
        t.wf(),
        t.state == TimerState::Running,
    ensures
        resumed(t, now).anchor == Some(RunAnchor { started_at: now, base_secs: t.elapsed_secs }),
        t.mode == TimerMode::Stopwatch && t.elapsed_secs + run <= u64::MAX ==> advanced(
            resumed(t, now),
            run,
        ).elapsed_secs == t.elapsed_secs + run,
        t.mode == TimerMode::Countdown && t.elapsed_secs + run < t.duration_secs ==> {
            &&& advanced(resumed(t, now), run).elapsed_secs == t.elapsed_secs + run
            &&& advanced(resumed(t, now), run).remaining_secs == t.duration_secs - t.elapsed_secs
                - run
            &&& advanced(resumed(t, now), run).state == TimerState::Running
        },
{
}

/// Reset goes back to the configured start and nothing else: the mode and
/// the duration stay, the timer is idle with nothing spent and the whole
/// duration left; it is the same as configuring the timer again with its
/// own mode and duration, and resetting twice is resetting once.
pub proof fn lemma_reset_keeps_the_configuration(t: Timer)
    ensures
        reset_spec(t).mode == t.mode,
        reset_spec(t).duration_secs == t.duration_secs,
        reset_spec(t).state == TimerState::Idle,
        reset_spec(t).elapsed_secs == 0,
        reset_spec(t).remaining_secs == t.duration_secs,
        reset_spec(t).anchor is None,
        reset_spec(t) == configured(t, t.mode, t.duration_secs),
        reset_spec(reset_spec(t)) == reset_spec(t),
        reset_spec(t).wf(),
{
}

/// Configuring always restarts the count: whatever the timer was doing,
/// the configured timer has the new mode and duration, is idle, has spent
/// nothing and has the whole new duration left; so it does not depend on
/// the timer it was made from.
pub proof fn lemma_configure_restarts_the_count(
    t: Timer,
    other: Timer,
    mode: TimerMode,
    duration_secs: u64,
)
    ensures
        configured(t, mode, duration_secs).mode == mode,
        configured(t, mode, duration_secs).duration_secs == duration_secs,
        configured(t, mode, duration_secs).state == TimerState::Idle,
        configured(t, mode, duration_secs).elapsed_secs == 0,
        configured(t, mode, duration_secs).remaining_secs == duration_secs,
        configured(t, mode, duration_secs).anchor is None,
        configured(t, mode, duration_secs) == configured(other, mode, duration_secs),
        configured(t, mode, duration_secs).wf(),
{
}

/// After boot no timer is running, and the numbers it had are kept.
pub proof fn lemma_boot_never_runs(t: Timer)
    ensures
        booted(t).state != TimerState::Running,
        booted(t).elapsed_secs == t.elapsed_secs,
        booted(t).remaining_secs == t.remaining_secs,
        t.wf() ==> booted(t).anchor is None,
{
}

/// An idle 25-minute countdown.
pub open spec fn default_timer() -> Timer {
    Timer {
        mode: TimerMode::Countdown,
        duration_secs: DEFAULT_DURATION_SECS,
        remaining_secs: DEFAULT_DURATION_SECS,
        elapsed_secs: 0,
        state: TimerState::Idle,
        anchor: None,
    }
}

impl Default for Timer {
    /// An idle 25-minute countdown.
    fn default() -> (t: Timer)
        ensures
            t == default_timer(),
    {
        Timer {
            mode: TimerMode::Countdown,
            duration_secs: DEFAULT_DURATION_SECS,
            remaining_secs: DEFAULT_DURATION_SECS,
            elapsed_secs: 0,
            state: TimerState::Idle,
            anchor: None,
        }
    }
}

} // verus!
