//! The in-memory task store and the commands the note window sends.
//!
//! The store is the source of truth for every task; the shell keeps it
//! behind a lock, mirrors it to disk after each command, and emits the
//! events the window listens for.

use crate::heartbeat::{
    beat_dones, beat_fires, beat_ticks, boot_fits, boot_plans, fits, persist_now, settled, stepped,
    Beat, BootObservation, Cadence, FirePlan, Observation, TimerDone,
};
use crate::schedule::{armed_view, fire_time_ok, next_fire_time, no_schedule, Schedule, ScheduleKind};
use crate::wall::{secs_between, whole_secs_between, Moment};
use crate::task::{Geometry, Task, TaskView};
use crate::text::{owned, same_chars};
use crate::timer::{
    booted, configured, default_timer, paused, reset_spec, resumed, started, Advance, Timer, TimerMode,
    TimerState,
};
use std::time::Instant;
use vstd::prelude::*;

verus! {

/// No two tasks share an id.
pub open spec fn unique_ids(s: Seq<TaskView>) -> bool {
    forall|i: int, j: int| 0 <= i < s.len() && 0 <= j < s.len() && i != j ==> s[i].id != s[j].id
}

/// Some task has the id.
pub open spec fn has_id(s: Seq<TaskView>, id: Seq<char>) -> bool {
    exists|i: int| 0 <= i < s.len() && s[i].id == id
}

/// The position of the task with the id (meaningful when there is one).
pub open spec fn index_of(s: Seq<TaskView>, id: Seq<char>) -> int {
    choose|i: int| 0 <= i < s.len() && s[i].id == id
}

/// The task with the id, if any.
pub open spec fn lookup(s: Seq<TaskView>, id: Seq<char>) -> Option<TaskView> {
    if has_id(s, id) {
        Some(s[index_of(s, id)])
    } else {
        None
    }
}

/// `s` with `t` stored under its id: it replaces the task with that id, or
/// comes last.
pub open spec fn upserted(s: Seq<TaskView>, t: TaskView) -> Seq<TaskView> {
    if has_id(s, t.id) {
        s.update(index_of(s, t.id), t)
    } else {
        s.push(t)
    }
}

/// `s` without the task with the id.
pub open spec fn removed(s: Seq<TaskView>, id: Seq<char>) -> Seq<TaskView> {
    if has_id(s, id) {
        s.remove(index_of(s, id))
    } else {
        s
    }
}

/// `s` with the timer of the task with the id replaced.
pub open spec fn with_timer(s: Seq<TaskView>, id: Seq<char>, timer: Timer) -> Seq<TaskView> {
    s.update(index_of(s, id), TaskView { timer, ..s[index_of(s, id)] })
}

/// The timer of the task with the id (meaningful when there is one).
pub open spec fn timer_of(s: Seq<TaskView>, id: Seq<char>) -> Timer {
    s[index_of(s, id)].timer
}

/// What a window saves: its own text, color and geometry; the timer stays
/// the one the store already has for that task.
pub open spec fn saved_view(s: Seq<TaskView>, t: TaskView) -> TaskView {
    if has_id(s, t.id) {
        TaskView { timer: s[index_of(s, t.id)].timer, ..t }
    } else {
        t
    }
}

/// The cascade step of the `n`-th new window: `(n as i32) % 8`, that is
/// the count modulo 8, taken negative (as Rust's remainder of a negative
/// `i32`) in the unreachable case of a count whose low 32 bits read as a
/// negative `i32`.
pub open spec fn cascade_step(n: nat) -> int {
    if n % 0x1_0000_0000 >= 0x8000_0000 && n % 8 != 0 {
        (n % 8) - 8
    } else {
        (n % 8) as int
    }
}

/// Where a new window goes when `n` tasks exist: cascaded in steps of 28
/// pixels, restarting every 8 notes.
pub open spec fn cascade_offset(n: nat) -> int {
    120 + cascade_step(n) * 28
}

/// The error of `get_task` for an unknown id.
pub open spec fn no_task_text(id: Seq<char>) -> Seq<char> {
    "no task "@ + id
}

/// The numbers a timer event carries.
pub open spec fn tick_of(t: TaskView) -> TimerTickView {
    TimerTickView {
        id: t.id,
        remaining_secs: t.timer.remaining_secs,
        elapsed_secs: t.timer.elapsed_secs,
        state: t.timer.state,
    }
}

/// A timer event: where the timer of one task stands.
#[derive(Clone, Debug)]
pub struct TimerTick {
    pub id: String,
    pub remaining_secs: u64,
    pub elapsed_secs: u64,
    pub state: TimerState,
}

/// A timer event as plain values.
pub struct TimerTickView {
    pub id: Seq<char>,
    pub remaining_secs: u64,
    pub elapsed_secs: u64,
    pub state: TimerState,
}

impl View for TimerTick {
    type V = TimerTickView;

    open spec fn view(&self) -> TimerTickView {
        TimerTickView {
            id: self.id@,
            remaining_secs: self.remaining_secs,
            elapsed_secs: self.elapsed_secs,
            state: self.state,
        }
    }
}

/// In a store with unique ids, the position of an id is the one task that
/// has it.
pub proof fn lemma_index_of_unique(s: Seq<TaskView>, id: Seq<char>, i: int)
    requires
        unique_ids(s),
        0 <= i < s.len(),
        s[i].id == id,
    ensures
        has_id(s, id),
        index_of(s, id) == i,
        lookup(s, id) == Some(s[i]),
{
    assert(has_id(s, id));
}

/// The tasks `ts` stored one after the other, each under its id.
pub open spec fn stored_in_turn(ts: Seq<TaskView>) -> Seq<TaskView>
    decreases ts.len(),
{
    if ts.len() == 0 {
        Seq::empty()
    } else {
        upserted(stored_in_turn(ts.drop_last()), ts.last())
    }
}

/// Storing, one after the other, tasks with distinct ids (as `list_tasks`
/// gives them) rebuilds exactly that sequence: what `from_tasks` makes of
/// the listed tasks is the store they were listed from.
pub proof fn lemma_reload_round_trip(ts: Seq<TaskView>)
    requires
        unique_ids(ts),
    ensures
        stored_in_turn(ts) == ts,
    decreases ts.len(),
{
    if ts.len() > 0 {
        let init = ts.drop_last();
        assert(unique_ids(init));
        lemma_reload_round_trip(init);
        assert(!has_id(init, ts.last().id)) by {
            if has_id(init, ts.last().id) {
                let j = choose|j: int| 0 <= j < init.len() && init[j].id == ts.last().id;
                assert(ts[j].id == ts[ts.len() - 1].id);
            }
        }
        assert(init.push(ts.last()) =~= ts);
    }
}

/// The error of a command on an unknown task.
pub open spec fn no_such_task() -> Seq<char> {
    "no such task"@
}

/// Storing a task makes it the one found under its id, and leaves every
/// other id finding what it found before; ids stay distinct.
pub proof fn lemma_lookup_after_upsert(s: Seq<TaskView>, t: TaskView)
    requires
        unique_ids(s),
    ensures
        unique_ids(upserted(s, t)),
        lookup(upserted(s, t), t.id) == Some(t),
        forall|id: Seq<char>| id != t.id ==> lookup(upserted(s, t), id) == lookup(s, id),
{
    let u = upserted(s, t);
    if has_id(s, t.id) {
        let i = index_of(s, t.id);
        assert(unique_ids(u)) by {
            assert forall|a: int, b: int| 0 <= a < u.len() && 0 <= b < u.len() && a != b implies u[a].id
                != u[b].id by {
                if a == i {
                    assert(s[a].id == t.id);
                } else if b == i {
                    assert(s[b].id == t.id);
                }
            }
        }
        lemma_index_of_unique(u, t.id, i);
        assert forall|id: Seq<char>| id != t.id implies lookup(u, id) == lookup(s, id) by {
            if has_id(s, id) {
                let j = index_of(s, id);
                lemma_index_of_unique(u, id, j);
            } else {
                assert(!has_id(u, id)) by {
                    if has_id(u, id) {
                        let j = choose|j: int| 0 <= j < u.len() && u[j].id == id;
                        assert(s[j].id == id);
                    }
                }
            }
        }
    } else {
        let i = s.len() as int;
        assert(unique_ids(u)) by {
            assert forall|a: int, b: int| 0 <= a < u.len() && 0 <= b < u.len() && a != b implies u[a].id
                != u[b].id by {
                if a == i {
                    assert(!(s[b].id == t.id));
                } else if b == i {
                    assert(!(s[a].id == t.id));
                }
            }
        }
        lemma_index_of_unique(u, t.id, i);
        assert forall|id: Seq<char>| id != t.id implies lookup(u, id) == lookup(s, id) by {
            if has_id(s, id) {
                let j = index_of(s, id);
                lemma_index_of_unique(u, id, j);
            } else {
                assert(!has_id(u, id)) by {
                    if has_id(u, id) {
                        let j = choose|j: int| 0 <= j < u.len() && u[j].id == id;
                        assert(j < s.len());
                        assert(s[j].id == id);
                    }
                }
            }
        }
    }
}

/// Deleting a task makes its id find nothing, and leaves every other id
/// finding what it found before; ids stay distinct.
pub proof fn lemma_lookup_after_remove(s: Seq<TaskView>, id: Seq<char>)
    requires
        unique_ids(s),
    ensures
        unique_ids(removed(s, id)),
        lookup(removed(s, id), id) is None,
        forall|other: Seq<char>| other != id ==> lookup(removed(s, id), other) == lookup(s, other),
{
    let r = removed(s, id);
    if has_id(s, id) {
        let i = index_of(s, id);
        assert(unique_ids(r)) by {
            assert forall|a: int, b: int| 0 <= a < r.len() && 0 <= b < r.len() && a != b implies r[a].id
                != r[b].id by {
                let sa = if a < i { a } else { a + 1 };
                let sb = if b < i { b } else { b + 1 };
                assert(r[a] == s[sa]);
                assert(r[b] == s[sb]);
            }
        }
        assert(!has_id(r, id)) by {
            if has_id(r, id) {
                let j = choose|j: int| 0 <= j < r.len() && r[j].id == id;
                let sj = if j < i { j } else { j + 1 };
                assert(r[j] == s[sj]);
            }
        }
        assert forall|other: Seq<char>| other != id implies lookup(r, other) == lookup(s, other) by {
            if has_id(s, other) {
                let j = index_of(s, other);
                assert(j != i);
                let rj = if j < i { j } else { j - 1 };
                assert(r[rj] == s[j]);
                lemma_index_of_unique(r, other, rj);
            } else {
                assert(!has_id(r, other)) by {
                    if has_id(r, other) {
                        let j = choose|j: int| 0 <= j < r.len() && r[j].id == other;
                        let sj = if j < i { j } else { j + 1 };
                        assert(r[j] == s[sj]);
                    }
                }
            }
        }
    }
}

/// Changing the timer of a task changes what its id finds to the same task
/// with the new timer, and nothing else.
pub proof fn lemma_lookup_after_timer_change(s: Seq<TaskView>, id: Seq<char>, timer: Timer)
    requires
        unique_ids(s),
        has_id(s, id),
    ensures
        unique_ids(with_timer(s, id, timer)),
        lookup(with_timer(s, id, timer), id) == Some(TaskView { timer, ..s[index_of(s, id)] }),
        forall|other: Seq<char>|
            other != id ==> lookup(with_timer(s, id, timer), other) == lookup(s, other),
{
    let i = index_of(s, id);
    let t = TaskView { timer, ..s[i] };
    assert(with_timer(s, id, timer) == upserted(s, t));
    lemma_lookup_after_upsert(s, t);
}

/// What a window saves is what the store gives back for that task, except
/// the timer, which stays the store's own; no other task changes.
pub proof fn lemma_get_returns_saved(s: Seq<TaskView>, t: TaskView)
    requires
        unique_ids(s),
    ensures
        lookup(upserted(s, saved_view(s, t)), t.id) == Some(saved_view(s, t)),
        saved_view(s, t).title == t.title,
        saved_view(s, t).content == t.content,
        saved_view(s, t).color == t.color,
        saved_view(s, t).window == t.window,
        saved_view(s, t).schedule == t.schedule,
        has_id(s, t.id) ==> saved_view(s, t).timer == lookup(s, t.id)->0.timer,
        forall|id: Seq<char>|
            id != t.id ==> lookup(upserted(s, saved_view(s, t)), id) == lookup(s, id),
{
    lemma_lookup_after_upsert(s, saved_view(s, t));
}

/// The store in which a created task was put finds it under its id, and
/// holds one more task unless the fresh id was already taken.
pub proof fn lemma_created_task_is_found(s: Seq<TaskView>, t: TaskView)
    requires
        unique_ids(s),
    ensures
        lookup(upserted(s, t), t.id) == Some(t),
        !has_id(s, t.id) ==> upserted(s, t).len() == s.len() + 1,
{
    lemma_lookup_after_upsert(s, t);
}

/// The tasks, in the order they were first stored.
pub struct TaskStore {
    tasks: Vec<Task>,
}

impl View for TaskStore {
    type V = Seq<TaskView>;

    closed spec fn view(&self) -> Seq<TaskView> {
        self.tasks@.map_values(|t: Task| t@)
    }
}

impl TaskStore {
    /// A store whose tasks have distinct ids.
    pub open spec fn wf(&self) -> bool {
        unique_ids(self@)
    }

    /// An empty store.
    pub fn new() -> (s: TaskStore)
        ensures
            s@ == Seq::<TaskView>::empty(),
            s.wf(),
    {
        let s = TaskStore { tasks: Vec::new() };
        assert(s@ =~= Seq::<TaskView>::empty());
        s
    }

    /// A store holding `tasks`, each stored in turn under its id (a later
    /// task with an id already seen replaces the earlier one).
    pub fn from_tasks(tasks: Vec<Task>) -> (s: TaskStore)
        ensures
            s.wf(),
            s@ == stored_in_turn(tasks@.map_values(|t: Task| t@)),
    {
        let ghost all = tasks@.map_values(|t: Task| t@);
        let mut s = TaskStore::new();
        let mut rest = tasks;
        let n = rest.len();
        let mut i: usize = 0;
        assert(all.take(0) =~= Seq::<TaskView>::empty());
        while i < n
            invariant
                s.wf(),
                n == all.len(),
                i <= n,
                rest@.len() == n - i,
                forall|k: int| 0 <= k < rest@.len() ==> (#[trigger] rest@[k])@ == all[k + i],
                s@ == stored_in_turn(all.take(i as int)),
            decreases n - i,
        {
            let t = rest.remove(0);
            assert(t@ == all[i as int]);
            s.upsert(t);
            assert(all.take(i + 1).drop_last() =~= all.take(i as int));
            assert forall|k: int| 0 <= k < rest@.len() implies (#[trigger] rest@[k])@ == all[k + i
                + 1] by {}
            i = i + 1;
        }
        assert(all.take(n as int) =~= all);
        s
    }

    /// How many tasks there are.
    pub fn len(&self) -> (n: usize)
        ensures
            n == self@.len(),
    {
        self.tasks.len()
    }

    /// The position of the task with the id.
    pub fn find(&self, id: &str) -> (r: Option<usize>)
        requires
            self.wf(),
        ensures
            match r {
                Some(i) => has_id(self@, id@) && i == index_of(self@, id@) && i < self@.len(),
                None => !has_id(self@, id@),
            },
    {
        let mut i: usize = 0;
        while i < self.tasks.len()
            invariant
                self.wf(),
                i <= self.tasks@.len(),
                forall|j: int| 0 <= j < i ==> self@[j].id != id@,
            decreases self.tasks@.len() - i,
        {
            if same_chars(self.tasks[i].id.as_str(), id) {
                proof {
                    lemma_index_of_unique(self@, id@, i as int);
                }
                return Some(i);
            }
            i = i + 1;
        }
        None
    }

    /// Store `t` under its id: replace the task with that id, or add it last.
    pub fn upsert(&mut self, t: Task)
        requires
            old(self).wf(),
        ensures
            final(self).wf(),
            final(self)@ == upserted(old(self)@, t@),
    {
        let ghost before = self@;
        match self.find(t.id.as_str()) {
            Some(i) => {
                self.tasks.set(i, t);
                assert(self@ =~= before.update(i as int, t@));
            },
            None => {
                self.tasks.push(t);
                assert(self@ =~= before.push(t@));
            },
        }
    }
    /// Replacing the timer of the task with the id keeps every id, so ids
    /// stay distinct.
    proof fn lemma_timer_update_keeps_ids(s: Seq<TaskView>, id: Seq<char>, timer: Timer)
        requires
            unique_ids(s),
            has_id(s, id),
        ensures
            unique_ids(with_timer(s, id, timer)),
            with_timer(s, id, timer).len() == s.len(),
            forall|k: int| 0 <= k < s.len() ==> (#[trigger] with_timer(s, id, timer)[k]).id == s[k].id,
    {
    }

    /// Start (or resume) the timer of the task with the id at `now`.
    /// Returns whether the timer changed: a running timer, or a finished
    /// countdown, is left as it is.
    pub fn start_timer(&mut self, id: &str, now: Instant) -> (r: Result<bool, String>)
        requires
            old(self).wf(),
        ensures
            final(self).wf(),
            !has_id(old(self)@, id@) ==> (r matches Err(e) && e@ == no_such_task() && final(self)@
                == old(self)@),
            has_id(old(self)@, id@) ==> {
                let t = timer_of(old(self)@, id@);
                &&& r == Ok::<bool, String>(t.state != TimerState::Running && t.state
                    != TimerState::Done)
                &&& final(self)@ == with_timer(old(self)@, id@, started(t, now))
            },
    {
        match self.find(id) {
            None => Err(owned("no such task")),
            Some(i) => {
                let ghost before = self@;
                let mut t = self.tasks[i].timer;
                let changed = t.state != TimerState::Running && t.state != TimerState::Done;
                t.start(now);
                self.set_timer(i, t);
                proof {
                    Self::lemma_timer_update_keeps_ids(before, id@, t);
                }
                Ok(changed)
            },
        }
    }

    /// Pause the timer of the task with the id at `now`, folding the running
    /// segment into its numbers. Returns whether the timer changed: a timer
    /// that is not running is left as it is.
    pub fn pause_timer(&mut self, id: &str, now: &Instant) -> (r: Result<bool, String>)
        requires
            old(self).wf(),
        ensures
            final(self).wf(),
            !has_id(old(self)@, id@) ==> (r matches Err(e) && e@ == no_such_task() && final(self)@
                == old(self)@),
            has_id(old(self)@, id@) ==> {
                let t = timer_of(old(self)@, id@);
                &&& r == Ok::<bool, String>(t.state == TimerState::Running)
                &&& exists|run: u64|
                    t.can_advance(run) && final(self)@ == with_timer(old(self)@, id@, paused(t, run))
            },
    {
        match self.find(id) {
            None => Err(owned("no such task")),
            Some(i) => {
                let ghost before = self@;
                let mut t = self.tasks[i].timer;
                let changed = t.state == TimerState::Running;
                let run = t.run_secs_at(now);
                t.pause_after(run);
                self.set_timer(i, t);
                proof {
                    Self::lemma_timer_update_keeps_ids(before, id@, t);
                }
                Ok(changed)
            },
        }
    }

    /// Reset the timer of the task with the id to idle at its configured
    /// start.
    pub fn reset_timer(&mut self, id: &str) -> (r: Result<(), String>)
        requires
            old(self).wf(),
        ensures
            final(self).wf(),
            !has_id(old(self)@, id@) ==> (r matches Err(e) && e@ == no_such_task() && final(self)@
                == old(self)@),
            has_id(old(self)@, id@) ==> r is Ok && final(self)@ == with_timer(
                old(self)@,
                id@,
                reset_spec(timer_of(old(self)@, id@)),
            ),
    {
        match self.find(id) {
            None => Err(owned("no such task")),
            Some(i) => {
                let ghost before = self@;
                let mut t = self.tasks[i].timer;
                t.reset();
                self.set_timer(i, t);
                proof {
                    Self::lemma_timer_update_keeps_ids(before, id@, t);
                }
                Ok(())
            },
        }
    }

    /// Configure the mode and duration of the timer of the task with the id
    /// to the ones given (a zero duration included); the timer goes idle.
    pub fn configure_timer(&mut self, id: &str, mode: TimerMode, duration_secs: u64) -> (r: Result<
        (),
        String,
    >)
        requires
            old(self).wf(),
        ensures
            final(self).wf(),
            !has_id(old(self)@, id@) ==> (r matches Err(e) && e@ == no_such_task() && final(self)@
                == old(self)@),
            has_id(old(self)@, id@) ==> r is Ok && final(self)@ == with_timer(
                old(self)@,
                id@,
                configured(timer_of(old(self)@, id@), mode, duration_secs),
            ),
    {
        match self.find(id) {
            None => Err(owned("no such task")),
            Some(i) => {
                let ghost before = self@;
                let mut t = self.tasks[i].timer;
                t.configure(mode, duration_secs);
                self.set_timer(i, t);
                proof {
                    Self::lemma_timer_update_keeps_ids(before, id@, t);
                }
                Ok(())
            },
        }
    }


    /// Create a task with a fresh id, its window cascaded after the ones
    /// already there, and an idle countdown of `default_countdown_secs` (the
    /// user's default countdown setting), and store it. Returns a copy of it.
    pub fn create_task(&mut self, default_countdown_secs: u64) -> (t: Task)
        requires
            old(self).wf(),
        ensures
            final(self).wf(),
            t@.id.len() == 36,
            t@.title.len() == 0,
            t@.content.len() == 0,
            t@.color == "#fff7b0"@,
            t@.window == (Geometry {
                x: cascade_offset(old(self)@.len()) as i32,
                y: cascade_offset(old(self)@.len()) as i32,
                w: 260,
                h: 260,
            }),
            t@.timer == configured(default_timer(), TimerMode::Countdown, default_countdown_secs),
            t@.schedule == no_schedule(),
            final(self)@ == upserted(old(self)@, t@),
    {
        let mut task = Task::new();
        task.timer.configure(TimerMode::Countdown, default_countdown_secs);
        let n = self.tasks.len();
        let r = (n % 8) as i32;
        let low = (n as u64) % 0x1_0000_0000u64;
        let step: i32 = if low >= 0x8000_0000u64 && r != 0 {
            r - 8
        } else {
            r
        };
        assert(low == (n as int) % 0x1_0000_0000int);
        task.window.x = 120 + step * 28;
        task.window.y = 120 + step * 28;
        let copy = task.copy();
        self.upsert(task);
        copy
    }

    /// Delete the task with the id (nothing happens for an unknown id).
    pub fn delete_task(&mut self, id: &str)
        requires
            old(self).wf(),
        ensures
            final(self).wf(),
            final(self)@ == removed(old(self)@, id@),
    {
        let ghost before = self@;
        match self.find(id) {
            None => {},
            Some(i) => {
                self.tasks.remove(i);
                assert(self@ =~= before.remove(i as int));
            },
        }
    }

    /// Copies of all tasks, in store order.
    pub fn list_tasks(&self) -> (r: Vec<Task>)
        ensures
            r@.map_values(|t: Task| t@) == self@,
    {
        let mut r: Vec<Task> = Vec::new();
        let mut i: usize = 0;
        while i < self.tasks.len()
            invariant
                i <= self.tasks@.len(),
                r@.len() == i,
                forall|k: int| 0 <= k < i ==> (#[trigger] r@[k])@ == self@[k],
            decreases self.tasks@.len() - i,
        {
            r.push(self.tasks[i].copy());
            i = i + 1;
        }
        assert(r@.map_values(|t: Task| t@) =~= self@);
        r
    }

    /// A copy of the task with the id, or the error `no task <id>`.
    pub fn get_task(&self, id: &str) -> (r: Result<Task, String>)
        requires
            self.wf(),
        ensures
            match r {
                Ok(t) => lookup(self@, id@) == Some(t@),
                Err(e) => lookup(self@, id@) is None && e@ == no_task_text(id@),
            },
    {
        match self.find(id) {
            Some(i) => Ok(self.tasks[i].copy()),
            None => {
                let mut e = owned("no task ");
                e.append(id);
                Err(e)
            },
        }
    }

    /// Save a window's edits: a whole-task upsert that keeps the timer the
    /// store already has for that task (the window owns text, color and
    /// geometry; the store owns the timer).
    pub fn save_task(&mut self, task: Task)
        requires
            old(self).wf(),
        ensures
            final(self).wf(),
            final(self)@ == upserted(old(self)@, saved_view(old(self)@, task@)),
    {
        let mut task = task;
        match self.find(task.id.as_str()) {
            Some(i) => {
                task.timer = self.tasks[i].timer;
            },
            None => {},
        }
        self.upsert(task);
    }

    /// Replace the schedule of the task with the id, with its duplicate-fire
    /// guard cleared so the (re)set time can fire.
    pub fn set_schedule(&mut self, id: &str, schedule: Schedule) -> (r: Result<(), String>)
        requires
            old(self).wf(),
        ensures
            final(self).wf(),
            !has_id(old(self)@, id@) ==> (r matches Err(e) && e@ == no_such_task() && final(self)@
                == old(self)@),
            has_id(old(self)@, id@) ==> r is Ok && final(self)@ == old(self)@.update(
                index_of(old(self)@, id@),
                TaskView {
                    schedule: armed_view(schedule@),
                    ..old(self)@[index_of(old(self)@, id@)]
                },
            ),
    {
        match self.find(id) {
            None => Err(owned("no such task")),
            Some(i) => {
                let ghost before = self@;
                let mut schedule = schedule;
                schedule.arm();
                let mut t = self.tasks.remove(i);
                t.schedule = schedule;
                self.tasks.insert(i, t);
                assert(self@ =~= before.update(
                    i as int,
                    TaskView { schedule: armed_view(schedule@), ..before[i as int] },
                ));
                Ok(())
            },
        }
    }

    /// Where the timer of the task with the id stands, for an immediate
    /// timer event.
    pub fn timer_snapshot(&self, id: &str) -> (r: Option<TimerTick>)
        requires
            self.wf(),
        ensures
            match r {
                Some(k) => has_id(self@, id@) && k@ == tick_of(self@[index_of(self@, id@)]),
                None => !has_id(self@, id@),
            },
    {
        match self.find(id) {
            None => None,
            Some(i) => {
                let t = &self.tasks[i];
                Some(
                    TimerTick {
                        id: t.id.clone(),
                        remaining_secs: t.timer.remaining_secs,
                        elapsed_secs: t.timer.elapsed_secs,
                        state: t.timer.state,
                    },
                )
            },
        }
    }


    /// Resume from the global pause at `now`: every running timer is
    /// re-anchored at `now` on the seconds its last heartbeat folded, so the
    /// time spent under the pause is not counted. Nothing else changes.
    pub fn resume_all(&mut self, now: Instant)
        requires
            old(self).wf(),
        ensures
            final(self).wf(),
            final(self)@.len() == old(self)@.len(),
            forall|k: int|
                0 <= k < old(self)@.len() ==> #[trigger] final(self)@[k] == (TaskView {
                    timer: resumed(old(self)@[k].timer, now),
                    ..old(self)@[k]
                }),
    {
        let ghost before = self@;
        let n = self.tasks.len();
        let mut i: usize = 0;
        while i < n
            invariant
                n == before.len(),
                i <= n,
                self@.len() == n,
                forall|k: int|
                    0 <= k < i ==> #[trigger] self@[k] == (TaskView {
                        timer: resumed(before[k].timer, now),
                        ..before[k]
                    }),
                forall|k: int| i <= k < n ==> #[trigger] self@[k] == before[k],
            decreases n - i,
        {
            let mut t = self.tasks[i].timer;
            t.resume_after_global_pause(now);
            self.set_timer(i, t);
            i = i + 1;
        }
        assert forall|a: int, b: int| 0 <= a < n && 0 <= b < n && a != b implies self@[a].id
            != self@[b].id by {
            assert(self@[a].id == before[a].id);
            assert(self@[b].id == before[b].id);
        }
    }

    /// At boot, every running timer comes back paused with its folded
    /// numbers kept: a monotonic anchor cannot survive a restart.
    pub fn suspend_running_timers(&mut self)
        requires
            old(self).wf(),
        ensures
            final(self).wf(),
            final(self)@.len() == old(self)@.len(),
            forall|k: int|
                0 <= k < old(self)@.len() ==> #[trigger] final(self)@[k] == (TaskView {
                    timer: booted(old(self)@[k].timer),
                    ..old(self)@[k]
                }),
    {
        let ghost before = self@;
        let n = self.tasks.len();
        let mut i: usize = 0;
        while i < n
            invariant
                n == before.len(),
                i <= n,
                self@.len() == n,
                forall|k: int|
                    0 <= k < i ==> #[trigger] self@[k] == (TaskView {
                        timer: booted(before[k].timer),
                        ..before[k]
                    }),
                forall|k: int| i <= k < n ==> #[trigger] self@[k] == before[k],
            decreases n - i,
        {
            let mut t = self.tasks[i].timer;
            t.suspend_for_boot();
            self.set_timer(i, t);
            i = i + 1;
        }
        assert forall|a: int, b: int| 0 <= a < n && 0 <= b < n && a != b implies self@[a].id
            != self@[b].id by {
            assert(self@[a].id == before[a].id);
            assert(self@[b].id == before[b].id);
        }
    }


    /// Read the clocks for every task: how long each running timer's
    /// current run has lasted at `now` (held back where a longer run would
    /// overflow), and when each schedule fires next at `wall`.
    pub fn observe(&self, now: &Instant, wall: &Moment) -> (obs: Vec<Observation>)
        ensures
            fits(self@, obs@, *wall),
    {
        let mut obs: Vec<Observation> = Vec::new();
        let mut i: usize = 0;
        while i < self.tasks.len()
            invariant
                i <= self.tasks@.len(),
                obs@.len() == i,
                forall|k: int|
                    0 <= k < i ==> (#[trigger] self@[k]).timer.can_advance(obs@[k].run)
                        && fire_time_ok(self@[k].schedule, *wall, obs@[k].fire_at),
            decreases self.tasks@.len() - i,
        {
            let t = &self.tasks[i];
            let run = t.timer.run_secs_at(now);
            let fire_at = if t.schedule.kind == ScheduleKind::Off {
                None
            } else {
                next_fire_time(&t.schedule, wall)
            };
            obs.push(Observation { run, fire_at });
            i = i + 1;
        }
        obs
    }

    /// One heartbeat with the clocks read as `obs` and the wall clock at
    /// `wall`: every running timer advances, every due schedule fires; the
    /// timer events, finished countdowns and fired schedules are reported
    /// in store order.
    pub fn apply_heartbeat(&mut self, obs: &Vec<Observation>, wall: &Moment) -> (beat: Beat)
        requires
            old(self).wf(),
            fits(old(self)@, obs@, *wall),
        ensures
            final(self).wf(),
            final(self)@.len() == old(self)@.len(),
            forall|k: int|
                0 <= k < old(self)@.len() ==> #[trigger] final(self)@[k] == stepped(
                    old(self)@[k],
                    obs@[k],
                    *wall,
                ),
            beat.ticks@.map_values(|t: TimerTick| t@) == beat_ticks(
                old(self)@,
                obs@,
                *wall,
                old(self)@.len() as int,
            ),
            beat.dones@.map_values(|d: TimerDone| d@) == beat_dones(
                old(self)@,
                obs@,
                old(self)@.len() as int,
            ),
            beat.fires@.map_values(|f: FirePlan| f@) == beat_fires(
                old(self)@,
                obs@,
                *wall,
                old(self)@.len() as int,
            ),
    {
        let ghost before = self@;
        let n = self.tasks.len();
        let mut ticks: Vec<TimerTick> = Vec::new();
        let mut dones: Vec<TimerDone> = Vec::new();
        let mut fires: Vec<FirePlan> = Vec::new();
        let mut i: usize = 0;
        while i < n
            invariant
                n == before.len(),
                fits(before, obs@, *wall),
                i <= n,
                self@.len() == n,
                forall|k: int|
                    0 <= k < i ==> #[trigger] self@[k] == stepped(before[k], obs@[k], *wall),
                forall|k: int| i <= k < n ==> #[trigger] self@[k] == before[k],
                ticks@.map_values(|t: TimerTick| t@) == beat_ticks(before, obs@, *wall, i as int),
                dones@.map_values(|d: TimerDone| d@) == beat_dones(before, obs@, i as int),
                fires@.map_values(|f: FirePlan| f@) == beat_fires(before, obs@, *wall, i as int),
            decreases n - i,
        {
            let ghost mid = self@;
            let ghost ticks0 = ticks@.map_values(|t: TimerTick| t@);
            let ghost dones0 = dones@.map_values(|d: TimerDone| d@);
            let ghost fires0 = fires@.map_values(|f: FirePlan| f@);
            let o = &obs[i];
            assert(mid[i as int] == before[i as int]);
            let mut t = self.tasks.remove(i);
            assert(t@ == before[i as int]);
            let report = t.timer.advance(o.run);
            if report != Advance::Still {
                ticks.push(
                    TimerTick {
                        id: t.id.clone(),
                        remaining_secs: t.timer.remaining_secs,
                        elapsed_secs: t.timer.elapsed_secs,
                        state: t.timer.state,
                    },
                );
            }
            if report == Advance::Finished {
                dones.push(
                    TimerDone { id: t.id.clone(), title: t.title.clone(), content: t.content.clone() },
                );
            }
            let fired = t.schedule.take_due(&o.fire_at, wall);
            if fired {
                fires.push(
                    FirePlan {
                        id: t.id.clone(),
                        auto_start: t.schedule.auto_start,
                        title: t.title.clone(),
                        content: t.content.clone(),
                    },
                );
            }
            assert(t@ == stepped(before[i as int], obs@[i as int], *wall));
            self.tasks.insert(i, t);
            assert(self@ =~= mid.update(i as int, stepped(before[i as int], obs@[i as int], *wall)));
            assert(ticks@.map_values(|t: TimerTick| t@) =~= beat_ticks(
                before,
                obs@,
                *wall,
                i + 1,
            ));
            assert(dones@.map_values(|d: TimerDone| d@) =~= beat_dones(before, obs@, i + 1));
            assert(fires@.map_values(|f: FirePlan| f@) =~= beat_fires(before, obs@, *wall, i + 1));
            i = i + 1;
        }
        assert forall|a: int, b: int| 0 <= a < n && 0 <= b < n && a != b implies self@[a].id
            != self@[b].id by {
            assert(self@[a].id == before[a].id);
            assert(self@[b].id == before[b].id);
        }
        Beat { ticks, dones, fires }
    }

    /// One heartbeat at `now` on the monotonic clock and `wall` on the wall
    /// clock (see `observe` and `apply_heartbeat`).
    pub fn heartbeat(&mut self, now: &Instant, wall: &Moment) -> (beat: Beat)
        requires
            old(self).wf(),
        ensures
            final(self).wf(),
            exists|obs: Seq<Observation>|
                {
                    &&& fits(old(self)@, obs, *wall)
                    &&& final(self)@.len() == old(self)@.len()
                    &&& forall|k: int|
                        0 <= k < old(self)@.len() ==> #[trigger] final(self)@[k] == stepped(
                            old(self)@[k],
                            obs[k],
                            *wall,
                        )
                    &&& beat.ticks@.map_values(|t: TimerTick| t@) == beat_ticks(
                        old(self)@,
                        obs,
                        *wall,
                        old(self)@.len() as int,
                    )
                    &&& beat.dones@.map_values(|d: TimerDone| d@) == beat_dones(
                        old(self)@,
                        obs,
                        old(self)@.len() as int,
                    )
                    &&& beat.fires@.map_values(|f: FirePlan| f@) == beat_fires(
                        old(self)@,
                        obs,
                        *wall,
                        old(self)@.len() as int,
                    )
                },
    {
        let obs = self.observe(now, wall);
        self.apply_heartbeat(&obs, wall)
    }



    /// One turn of the heartbeat loop. While the global pause is on nothing
    /// happens at all: no timer, schedule or count changes. Otherwise the
    /// store takes a heartbeat at `now` and `wall` (see `heartbeat`) and the
    /// cadence counts it; the result also says whether to write the store
    /// back now.
    pub fn heartbeat_turn(
        &mut self,
        cadence: &mut Cadence,
        paused: bool,
        now: &Instant,
        wall: &Moment,
    ) -> (r: Option<(Beat, bool)>)
        requires
            old(self).wf(),
            old(cadence).ticks_since_persist < u32::MAX,
        ensures
            final(self).wf(),
            paused ==> r is None && final(self)@ == old(self)@ && *final(cadence) == *old(cadence),
            !paused ==> (r matches Some((beat, persist)) && {
                &&& persist == persist_now(
                    old(cadence).ticks_since_persist,
                    beat.fires@.len() > 0,
                    beat.dones@.len() > 0,
                    beat.ticks@.len() > 0,
                )
                &&& final(cadence).ticks_since_persist == if persist {
                    0
                } else {
                    old(cadence).ticks_since_persist + 1
                }
                &&& final(self)@.len() == old(self)@.len()
                &&& exists|obs: Seq<Observation>|
                    {
                        &&& fits(old(self)@, obs, *wall)
                        &&& forall|k: int|
                            0 <= k < old(self)@.len() ==> #[trigger] final(self)@[k] == stepped(
                                old(self)@[k],
                                obs[k],
                                *wall,
                            )
                        &&& beat.ticks@.map_values(|t: TimerTick| t@) == beat_ticks(
                            old(self)@,
                            obs,
                            *wall,
                            old(self)@.len() as int,
                        )
                        &&& beat.dones@.map_values(|d: TimerDone| d@) == beat_dones(
                            old(self)@,
                            obs,
                            old(self)@.len() as int,
                        )
                        &&& beat.fires@.map_values(|f: FirePlan| f@) == beat_fires(
                            old(self)@,
                            obs,
                            *wall,
                            old(self)@.len() as int,
                        )
                    }
            }),
    {
        if paused {
            return None;
        }
        let beat = self.heartbeat(now, wall);
        let persist = cadence.note_beat(
            beat.fires.len() > 0,
            beat.dones.len() > 0,
            beat.ticks.len() > 0,
        );
        Some((beat, persist))
    }

    /// Read the wall clock for every schedule at boot: when it fires next,
    /// and how many whole seconds before `wall` that is.
    pub fn observe_boot(&self, wall: &Moment) -> (obs: Vec<BootObservation>)
        ensures
            boot_fits(self@, obs@, *wall),
    {
        let mut obs: Vec<BootObservation> = Vec::new();
        let mut i: usize = 0;
        while i < self.tasks.len()
            invariant
                i <= self.tasks@.len(),
                obs@.len() == i,
                forall|k: int|
                    0 <= k < i ==> fire_time_ok((#[trigger] self@[k]).schedule, *wall, obs@[k].fire_at)
                        && (match obs@[k].fire_at {
                        Some(m) => obs@[k].overdue == secs_between(wall@, m@),
                        None => obs@[k].overdue == 0,
                    }),
            decreases self.tasks@.len() - i,
        {
            let t = &self.tasks[i];
            let fire_at = next_fire_time(&t.schedule, wall);
            let overdue = match &fire_at {
                Some(m) => whole_secs_between(wall, m),
                None => 0,
            };
            obs.push(BootObservation { fire_at, overdue });
            i = i + 1;
        }
        obs
    }

    /// The boot reconciliation with the clocks read as `obs`: one-shots
    /// overdue within the grace window fire, stale ones are dropped, and
    /// weekly slots already past are suppressed. Returns the schedules to
    /// fire, in store order.
    pub fn apply_boot(&mut self, obs: &Vec<BootObservation>, wall: &Moment) -> (plans: Vec<FirePlan>)
        requires
            old(self).wf(),
            boot_fits(old(self)@, obs@, *wall),
        ensures
            final(self).wf(),
            final(self)@.len() == old(self)@.len(),
            forall|k: int|
                0 <= k < old(self)@.len() ==> #[trigger] final(self)@[k] == settled(
                    old(self)@[k],
                    obs@[k],
                    *wall,
                ),
            plans@.map_values(|f: FirePlan| f@) == boot_plans(
                old(self)@,
                obs@,
                *wall,
                old(self)@.len() as int,
            ),
    {
        let ghost before = self@;
        let n = self.tasks.len();
        let mut plans: Vec<FirePlan> = Vec::new();
        let mut i: usize = 0;
        while i < n
            invariant
                n == before.len(),
                boot_fits(before, obs@, *wall),
                i <= n,
                self@.len() == n,
                forall|k: int|
                    0 <= k < i ==> #[trigger] self@[k] == settled(before[k], obs@[k], *wall),
                forall|k: int| i <= k < n ==> #[trigger] self@[k] == before[k],
                plans@.map_values(|f: FirePlan| f@) == boot_plans(before, obs@, *wall, i as int),
            decreases n - i,
        {
            let ghost mid = self@;
            let o = &obs[i];
            assert(mid[i as int] == before[i as int]);
            let mut t = self.tasks.remove(i);
            let fires = t.schedule.settle_at_boot(&o.fire_at, wall, o.overdue);
            if fires {
                plans.push(
                    FirePlan {
                        id: t.id.clone(),
                        auto_start: t.schedule.auto_start,
                        title: t.title.clone(),
                        content: t.content.clone(),
                    },
                );
            }
            assert(t@ == settled(before[i as int], obs@[i as int], *wall));
            self.tasks.insert(i, t);
            assert(self@ =~= mid.update(i as int, settled(before[i as int], obs@[i as int], *wall)));
            assert(plans@.map_values(|f: FirePlan| f@) =~= boot_plans(before, obs@, *wall, i + 1));
            i = i + 1;
        }
        assert forall|a: int, b: int| 0 <= a < n && 0 <= b < n && a != b implies self@[a].id
            != self@[b].id by {
            assert(self@[a].id == before[a].id);
            assert(self@[b].id == before[b].id);
        }
        plans
    }

    /// The boot reconciliation at `wall` (see `observe_boot` and
    /// `apply_boot`).
    pub fn reconcile_on_boot(&mut self, wall: &Moment) -> (plans: Vec<FirePlan>)
        requires
            old(self).wf(),
        ensures
            final(self).wf(),
            exists|obs: Seq<BootObservation>|
                {
                    &&& boot_fits(old(self)@, obs, *wall)
                    &&& final(self)@.len() == old(self)@.len()
                    &&& forall|k: int|
                        0 <= k < old(self)@.len() ==> #[trigger] final(self)@[k] == settled(
                            old(self)@[k],
                            obs[k],
                            *wall,
                        )
                    &&& plans@.map_values(|f: FirePlan| f@) == boot_plans(
                        old(self)@,
                        obs,
                        *wall,
                        old(self)@.len() as int,
                    )
                },
    {
        let obs = self.observe_boot(wall);
        self.apply_boot(&obs, wall)
    }

    /// Replace the timer of the task at `i`.
    fn set_timer(&mut self, i: usize, timer: Timer)
        requires
            i < old(self)@.len(),
        ensures
            final(self)@ == old(self)@.update(
                i as int,
                TaskView { timer, ..old(self)@[i as int] },
            ),
    {
        let ghost before = self@;
        let mut t = self.tasks.remove(i);
        t.timer = timer;
        self.tasks.insert(i, t);
        assert(self@ =~= before.update(i as int, TaskView { timer, ..before[i as int] }));
    }
}

} // verus!
