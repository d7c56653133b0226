//! The single shared once-a-second heartbeat for every timer and schedule:
//! what one beat changes, what it reports, and when the store is written
//! back to disk.
//!
//! The shell runs the loop: it reads the clocks, calls into the store under
//! its lock, and after releasing the lock emits the reported events, shows
//! notifications and persists when told to.

use crate::schedule::{boot_fires, booted_view, due_now, fire_time_ok, fired_view, ScheduleKind};
use crate::store::{tick_of, unique_ids, TimerTick, TimerTickView};
use crate::task::TaskView;
use crate::timer::{advance_report, advanced, Advance, TimerState};
use crate::text::owned;
use crate::wall::{secs_between, Moment};
use vstd::prelude::*;

verus! {

/// What the clocks said about one task at a beat: how long its timer's
/// current run has lasted, and when its schedule fires next.
#[derive(Debug)]
pub struct Observation {
    pub run: u64,
    pub fire_at: Option<Moment>,
}

/// A countdown that finished on this beat.
#[derive(Clone, Debug)]
pub struct TimerDone {
    pub id: String,
    pub title: String,
    pub content: String,
}

/// A schedule that fired on this beat: the task to alert about and whether
/// to start its timer.
#[derive(Clone, Debug)]
pub struct FirePlan {
    pub id: String,
    pub auto_start: bool,
    pub title: String,
    pub content: String,
}

/// Everything one beat reports, in store order.
#[derive(Debug)]
pub struct Beat {
    pub ticks: Vec<TimerTick>,
    pub dones: Vec<TimerDone>,
    pub fires: Vec<FirePlan>,
}

pub struct TimerDoneView {
    pub id: Seq<char>,
    pub title: Seq<char>,
    pub content: Seq<char>,
}

pub struct FirePlanView {
    pub id: Seq<char>,
    pub auto_start: bool,
    pub title: Seq<char>,
    pub content: Seq<char>,
}

impl View for TimerDone {
    type V = TimerDoneView;

    open spec fn view(&self) -> TimerDoneView {
        TimerDoneView { id: self.id@, title: self.title@, content: self.content@ }
    }
}

impl View for FirePlan {
    type V = FirePlanView;

    open spec fn view(&self) -> FirePlanView {
        FirePlanView {
            id: self.id@,
            auto_start: self.auto_start,
            title: self.title@,
            content: self.content@,
        }
    }
}

/// One task after a beat: its timer advanced, and its schedule fired when
/// due.
pub open spec fn stepped(t: TaskView, o: Observation, now: Moment) -> TaskView {
    TaskView {
        timer: advanced(t.timer, o.run),
        schedule: if due_now(t.schedule, o.fire_at, now) {
            fired_view(t.schedule, o.fire_at->0@.stamp)
        } else {
            t.schedule
        },
        ..t
    }
}

/// The timer events of the first `n` tasks: one for each running timer,
/// with its numbers after the beat.
pub open spec fn beat_ticks(s: Seq<TaskView>, obs: Seq<Observation>, now: Moment, n: int) -> Seq<
    TimerTickView,
>
    decreases n,
{
    if n <= 0 {
        Seq::empty()
    } else {
        let k = n - 1;
        beat_ticks(s, obs, now, k) + if advance_report(s[k].timer, obs[k].run) != Advance::Still {
            seq![tick_of(stepped(s[k], obs[k], now))]
        } else {
            Seq::empty()
        }
    }
}

/// The finished countdowns among the first `n` tasks.
pub open spec fn beat_dones(s: Seq<TaskView>, obs: Seq<Observation>, n: int) -> Seq<TimerDoneView>
    decreases n,
{
    if n <= 0 {
        Seq::empty()
    } else {
        let k = n - 1;
        beat_dones(s, obs, k) + if advance_report(s[k].timer, obs[k].run) == Advance::Finished {
            seq![TimerDoneView { id: s[k].id, title: s[k].title, content: s[k].content }]
        } else {
            Seq::empty()
        }
    }
}

/// The fired schedules among the first `n` tasks.
pub open spec fn beat_fires(s: Seq<TaskView>, obs: Seq<Observation>, now: Moment, n: int) -> Seq<
    FirePlanView,
>
    decreases n,
{
    if n <= 0 {
        Seq::empty()
    } else {
        let k = n - 1;
        beat_fires(s, obs, now, k) + if due_now(s[k].schedule, obs[k].fire_at, now) {
            seq![
                FirePlanView {
                    id: s[k].id,
                    auto_start: s[k].schedule.auto_start,
                    title: s[k].title,
                    content: s[k].content,
                },
            ]
        } else {
            Seq::empty()
        }
    }
}

/// The plan a fired task is announced with: its id, its own auto-start
/// setting, its title and its text.
pub open spec fn plan_for(t: TaskView) -> FirePlanView {
    FirePlanView { id: t.id, auto_start: t.schedule.auto_start, title: t.title, content: t.content }
}

/// The plan is the one of some task among the first `n` whose schedule
/// was due.
pub open spec fn planned_for_due_task(
    s: Seq<TaskView>,
    obs: Seq<Observation>,
    now: Moment,
    n: int,
    p: FirePlanView,
) -> bool {
    exists|k: int|
        0 <= k < n && #[trigger] due_now(s[k].schedule, obs[k].fire_at, now) && p == plan_for(s[k])
}

/// Every fire plan of a beat comes from a task whose schedule was due and
/// carries that task's id, its own auto-start setting, its title and its
/// text: with distinct ids, the plan naming a task has exactly that task's
/// setting. And every task whose schedule was due has its plan.
pub proof fn lemma_fire_plans_follow_their_tasks(
    s: Seq<TaskView>,
    obs: Seq<Observation>,
    now: Moment,
    n: int,
)
    requires
        0 <= n <= s.len(),
        unique_ids(s),
    ensures
        forall|j: int|
            0 <= j < beat_fires(s, obs, now, n).len() ==> #[trigger] planned_for_due_task(
                s,
                obs,
                now,
                n,
                beat_fires(s, obs, now, n)[j],
            ),
        forall|j: int, k: int|
            0 <= j < beat_fires(s, obs, now, n).len() && 0 <= k < n && #[trigger] beat_fires(
                s,
                obs,
                now,
                n,
            )[j].id == #[trigger] s[k].id ==> {
                &&& due_now(s[k].schedule, obs[k].fire_at, now)
                &&& beat_fires(s, obs, now, n)[j].auto_start == s[k].schedule.auto_start
                &&& beat_fires(s, obs, now, n)[j].title == s[k].title
                &&& beat_fires(s, obs, now, n)[j].content == s[k].content
            },
        forall|k: int|
            0 <= k < n && #[trigger] due_now(s[k].schedule, obs[k].fire_at, now) ==> beat_fires(
                s,
                obs,
                now,
                n,
            ).contains(plan_for(s[k])),
{
    lemma_fire_plans_come_from_due_tasks(s, obs, now, n);
    let b = beat_fires(s, obs, now, n);
    assert forall|j: int, k: int|
        0 <= j < b.len() && 0 <= k < n && #[trigger] b[j].id == #[trigger] s[k].id implies {
            &&& due_now(s[k].schedule, obs[k].fire_at, now)
            &&& b[j].auto_start == s[k].schedule.auto_start
            &&& b[j].title == s[k].title
            &&& b[j].content == s[k].content
        } by {
        assert(planned_for_due_task(s, obs, now, n, b[j]));
        let i = choose|i: int|
            0 <= i < n && #[trigger] due_now(s[i].schedule, obs[i].fire_at, now) && b[j] == plan_for(
                s[i],
            );
        assert(s[i].id == s[k].id);
        assert(i == k);
    }
}

/// With distinct task ids, a beat announces each fired task once: no two
/// of its plans name the same task.
pub proof fn lemma_each_task_fires_once_per_beat(
    s: Seq<TaskView>,
    obs: Seq<Observation>,
    now: Moment,
    n: int,
)
    requires
        0 <= n <= s.len(),
        unique_ids(s),
    ensures
        forall|a: int, b: int|
            0 <= a < b < beat_fires(s, obs, now, n).len() ==> #[trigger] beat_fires(s, obs, now, n)[a].id
                != #[trigger] beat_fires(s, obs, now, n)[b].id,
    decreases n,
{
    if n > 0 {
        let k = n - 1;
        lemma_each_task_fires_once_per_beat(s, obs, now, k);
        lemma_fire_plans_come_from_due_tasks(s, obs, now, k);
        let pa = beat_fires(s, obs, now, k);
        let pb = beat_fires(s, obs, now, n);
        assert(pb == pa + if due_now(s[k].schedule, obs[k].fire_at, now) {
            seq![plan_for(s[k])]
        } else {
            Seq::empty()
        });
        assert forall|a: int, b: int| 0 <= a < b < pb.len() implies #[trigger] pb[a].id
            != #[trigger] pb[b].id by {
            assert(pb[a] == pa[a]);
            if b < pa.len() {
                assert(pb[b] == pa[b]);
            } else {
                assert(pb[b] == plan_for(s[k]));
                assert(planned_for_due_task(s, obs, now, k, pa[a]));
                let i = choose|i: int|
                    0 <= i < k && #[trigger] due_now(s[i].schedule, obs[i].fire_at, now) && pa[a]
                        == plan_for(s[i]);
                assert(s[i].id != s[k].id);
            }
        }
    }
}

/// Each plan comes from a due task, and each due task has its plan.
proof fn lemma_fire_plans_come_from_due_tasks(
    s: Seq<TaskView>,
    obs: Seq<Observation>,
    now: Moment,
    n: int,
)
    requires
        0 <= n <= s.len(),
    ensures
        forall|j: int|
            0 <= j < beat_fires(s, obs, now, n).len() ==> #[trigger] planned_for_due_task(
                s,
                obs,
                now,
                n,
                beat_fires(s, obs, now, n)[j],
            ),
        forall|k: int|
            0 <= k < n && #[trigger] due_now(s[k].schedule, obs[k].fire_at, now) ==> beat_fires(
                s,
                obs,
                now,
                n,
            ).contains(plan_for(s[k])),
    decreases n,
{
    if n > 0 {
        let k = n - 1;
        lemma_fire_plans_come_from_due_tasks(s, obs, now, k);
        let a = beat_fires(s, obs, now, k);
        let b = beat_fires(s, obs, now, n);
        assert(plan_for(s[k]) == (FirePlanView {
            id: s[k].id,
            auto_start: s[k].schedule.auto_start,
            title: s[k].title,
            content: s[k].content,
        }));
        assert(b == a + if due_now(s[k].schedule, obs[k].fire_at, now) {
            seq![plan_for(s[k])]
        } else {
            Seq::empty()
        });
        assert forall|j: int| 0 <= j < b.len() implies #[trigger] planned_for_due_task(
            s,
            obs,
            now,
            n,
            b[j],
        ) by {
            if j < a.len() {
                assert(b[j] == a[j]);
                assert(planned_for_due_task(s, obs, now, k, a[j]));
                let i = choose|i: int|
                    0 <= i < k && #[trigger] due_now(s[i].schedule, obs[i].fire_at, now) && a[j]
                        == plan_for(s[i]);
                assert(0 <= i < n && due_now(s[i].schedule, obs[i].fire_at, now));
            } else {
                assert(due_now(s[k].schedule, obs[k].fire_at, now));
                assert(b[j] == plan_for(s[k]));
            }
        }
        assert forall|i: int| 0 <= i < n && #[trigger] due_now(s[i].schedule, obs[i].fire_at, now)
            implies b.contains(plan_for(s[i])) by {
            if i < k {
                assert(a.contains(plan_for(s[i])));
                let j = choose|j: int| 0 <= j < a.len() && a[j] == plan_for(s[i]);
                assert(b[j] == a[j]);
            } else {
                assert(b[a.len() as int] == plan_for(s[k]));
            }
        }
    }
}

/// The observations fit the tasks at `now`: one per task, none that would
/// overflow a timer, and for each schedule the fire instant that
/// `next_fire_time` gives at `now`.
pub open spec fn fits(s: Seq<TaskView>, obs: Seq<Observation>, now: Moment) -> bool {
    &&& obs.len() == s.len()
    &&& forall|k: int|
        0 <= k < s.len() ==> (#[trigger] s[k]).timer.can_advance(obs[k].run) && fire_time_ok(
            s[k].schedule,
            now,
            obs[k].fire_at,
        )
}

/// What the clocks said about one task at boot: when its schedule fires
/// next, and how many whole seconds ago that was.
#[derive(Debug)]
pub struct BootObservation {
    pub fire_at: Option<Moment>,
    pub overdue: i64,
}

/// A beat leaves alone a task whose timer is not running and which has no
/// schedule, and reports nothing about it.
pub proof fn lemma_quiet_tasks_untouched(t: TaskView, o: Observation, now: Moment)
    requires
        t.timer.state != TimerState::Running,
        t.schedule.kind == ScheduleKind::Off,
    ensures
        stepped(t, o, now) == t,
        advance_report(t.timer, o.run) == Advance::Still,
        !due_now(t.schedule, o.fire_at, now),
{
}

/// The boot observations fit the tasks at `now`: one per task, each with
/// the fire instant that `next_fire_time` gives at `now`, and the whole
/// seconds from it to `now`.
pub open spec fn boot_fits(s: Seq<TaskView>, obs: Seq<BootObservation>, now: Moment) -> bool {
    &&& obs.len() == s.len()
    &&& forall|k: int|
        0 <= k < s.len() ==> fire_time_ok((#[trigger] s[k]).schedule, now, obs[k].fire_at) && (
        match obs[k].fire_at {
            Some(m) => obs[k].overdue == secs_between(now@, m@),
            None => obs[k].overdue == 0,
        })
}

/// One task after the boot reconciliation.
pub open spec fn settled(t: TaskView, o: BootObservation, now: Moment) -> TaskView {
    TaskView { schedule: booted_view(t.schedule, o.fire_at, now, o.overdue), ..t }
}

/// The schedules among the first `n` tasks that fire at boot.
pub open spec fn boot_plans(s: Seq<TaskView>, obs: Seq<BootObservation>, now: Moment, n: int) -> Seq<
    FirePlanView,
>
    decreases n,
{
    if n <= 0 {
        Seq::empty()
    } else {
        let k = n - 1;
        boot_plans(s, obs, now, k) + if boot_fires(s[k].schedule, obs[k].fire_at, now, obs[k].overdue) {
            seq![
                FirePlanView {
                    id: s[k].id,
                    auto_start: s[k].schedule.auto_start,
                    title: s[k].title,
                    content: s[k].content,
                },
            ]
        } else {
            Seq::empty()
        }
    }
}

/// How often the heartbeat writes the store back while timers merely run.
pub const PERSIST_EVERY_TICKS: u32 = 5;

/// Whether a beat writes the store, after `count` quiet beats: when a
/// schedule fired, when a countdown finished, or, while timers run, on the
/// fifth beat.
pub open spec fn persist_now(count: u32, fired: bool, finished: bool, ticked: bool) -> bool {
    fired || finished || (ticked && count + 1 >= PERSIST_EVERY_TICKS)
}

/// The heartbeat's own state: beats since the store was last written.
#[derive(Clone, Copy, Debug)]
pub struct Cadence {
    pub ticks_since_persist: u32,
}

impl Cadence {
    /// No beat yet.
    pub fn new() -> (c: Cadence)
        ensures
            c.ticks_since_persist == 0,
    {
        Cadence { ticks_since_persist: 0 }
    }

    /// Count a beat, and decide whether the store is written now: when a
    /// schedule fired, when a countdown finished, or, while timers run, every
    /// fifth beat. The count restarts when the store is written.
    pub fn note_beat(&mut self, fired: bool, finished: bool, ticked: bool) -> (persist: bool)
        requires
            old(self).ticks_since_persist < u32::MAX,
        ensures
            persist == persist_now(old(self).ticks_since_persist, fired, finished, ticked),
            final(self).ticks_since_persist == if persist {
                0
            } else {
                old(self).ticks_since_persist + 1
            },
    {
        self.ticks_since_persist = self.ticks_since_persist + 1;
        if fired || finished || (ticked && self.ticks_since_persist >= PERSIST_EVERY_TICKS) {
            self.ticks_since_persist = 0;
            true
        } else {
            false
        }
    }
}

/// A fired schedule or a finished countdown is written at once; while
/// timers run, no more than four beats in a row go unwritten.
pub proof fn lemma_persist_cadence(count: u32, ticked: bool)
    ensures
        persist_now(count, true, false, ticked),
        persist_now(count, false, true, ticked),
        count >= PERSIST_EVERY_TICKS - 1 ==> persist_now(count, false, false, true),
        !persist_now(count, false, false, false),
{
}

/// Whether one of the beats writes the store, each beat given as whether a
/// schedule fired, a countdown finished and a timer ticked in it, starting
/// after `count` quiet beats; the count goes on as `note_beat` keeps it.
pub open spec fn persists_within(count: u32, beats: Seq<(bool, bool, bool)>) -> bool
    decreases beats.len(),
{
    if beats.len() == 0 {
        false
    } else if persist_now(count, beats[0].0, beats[0].1, beats[0].2) {
        true
    } else {
        persists_within((count + 1) as u32, beats.skip(1))
    }
}

/// While timers run, the store is written at least once in every five
/// beats in a row, however many quiet beats came before them.
pub proof fn lemma_persist_every_five_beats(count: u32, beats: Seq<(bool, bool, bool)>)
    requires
        beats.len() == PERSIST_EVERY_TICKS,
        forall|i: int| 0 <= i < beats.len() ==> (#[trigger] beats[i]).2,
    ensures
        persists_within(count, beats),
{
    lemma_persist_within_reach(count, beats, PERSIST_EVERY_TICKS as int);
}

/// A run of `n` ticking beats, with `count + n` reaching the cadence,
/// writes the store.
proof fn lemma_persist_within_reach(count: u32, beats: Seq<(bool, bool, bool)>, n: int)
    requires
        1 <= n <= beats.len(),
        count + n >= PERSIST_EVERY_TICKS,
        forall|i: int| 0 <= i < n ==> (#[trigger] beats[i]).2,
    ensures
        persists_within(count, beats),
    decreases n,
{
    if !persist_now(count, beats[0].0, beats[0].1, beats[0].2) {
        let rest = beats.skip(1);
        assert forall|i: int| 0 <= i < n - 1 implies (#[trigger] rest[i]).2 by {
            assert(rest[i] == beats[i + 1]);
        }
        lemma_persist_within_reach((count + 1) as u32, rest, n - 1);
    }
}

/// The title of a desktop notification about a task: its title, or the
/// app's name for an untitled task.
pub open spec fn alert_title_text(title: Seq<char>) -> Seq<char> {
    if title.len() == 0 {
        "Notch"@
    } else {
        title
    }
}

/// The title of a desktop notification about a task.
pub fn alert_title(title: &str) -> (r: String)
    ensures
        r@ == alert_title_text(title@),
{
    if title.unicode_len() == 0 {
        owned("Notch")
    } else {
        owned(title)
    }
}

/// The body of the desktop notification when a schedule fires.
pub open spec fn fire_alert_body_text(auto_start: bool) -> Seq<char> {
    if auto_start {
        "Timer started."@
    } else {
        "Tap the note to start the timer."@
    }
}

/// The body of the desktop notification when a schedule fires.
pub fn fire_alert_body(auto_start: bool) -> (r: String)
    ensures
        r@ == fire_alert_body_text(auto_start),
{
    if auto_start {
        owned("Timer started.")
    } else {
        owned("Tap the note to start the timer.")
    }
}

/// What follows a fired schedule's alert.
#[derive(Clone, Copy, Debug, PartialEq, Eq, Structural)]
pub enum FireFollowUp {
    /// Start the task's timer.
    StartTimer,
    /// Let the window offer a Start button.
    OfferStart,
}

/// A fired schedule starts its timer when it auto-starts; otherwise the
/// window offers to start it.
pub fn fire_follow_up(auto_start: bool) -> (f: FireFollowUp)
    ensures
        f == (if auto_start {
            FireFollowUp::StartTimer
        } else {
            FireFollowUp::OfferStart
        }),
{
    if auto_start {
        FireFollowUp::StartTimer
    } else {
        FireFollowUp::OfferStart
    }
}

/// The body of the desktop notification when a countdown finishes.
pub fn done_alert_body() -> (r: String)
    ensures
        r@ == "Timer finished."@,
{
    owned("Timer finished.")
}

} // verus!
