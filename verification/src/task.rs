//! A task: a sticky note with a title, a body, a timer and a schedule.

use crate::schedule::{no_schedule, opt_text, Schedule, ScheduleView};
use crate::text::owned;
use crate::timer::{default_timer, Timer};
use vstd::prelude::*;

verus! {

/// Window position and size of a note.
#[derive(Clone, Copy, Debug, PartialEq, Eq, Structural)]
pub struct Geometry {
    pub x: i32,
    pub y: i32,
    pub w: u32,
    pub h: u32,
}

impl Default for Geometry {
    /// A safe fallback; new tasks are cascaded when created.
    fn default() -> (g: Geometry)
        ensures
            g == (Geometry { x: 120, y: 120, w: 260, h: 260 }),
    {
        Geometry { x: 120, y: 120, w: 260, h: 260 }
    }
}

/// A task.
#[derive(Clone, Debug)]
pub struct Task {
    /// uuid v4, hyphenated.
    pub id: String,
    pub title: String,
    pub content: String,
    pub color: String,
    pub window: Geometry,
    pub timer: Timer,
    pub schedule: Schedule,
}

/// A task as plain values.
pub struct TaskView {
    pub id: Seq<char>,
    pub title: Seq<char>,
    pub content: Seq<char>,
    pub color: Seq<char>,
    pub window: Geometry,
    pub timer: Timer,
    pub schedule: ScheduleView,
}

impl View for Task {
    type V = TaskView;

    open spec fn view(&self) -> TaskView {
        TaskView {
            id: self.id@,
            title: self.title@,
            content: self.content@,
            color: self.color@,
            window: self.window,
            timer: self.timer,
            schedule: self.schedule@,
        }
    }
}

/// `uuid::Uuid::new_v4` as hyphenated lowercase text. The identifier is
/// random; only its length, 36 characters, is promised.
#[verifier::external_body]
fn fresh_task_id() -> (id: String)
    ensures
        id@.len() == 36,
{
    uuid::Uuid::new_v4().to_string()
}

/// The sticky-yellow default note color.
pub fn default_color() -> (c: String)
    ensures
        c@ == "#fff7b0"@,
{
    owned("#fff7b0")
}

/// A copy of optional text.
pub fn copy_opt_text(s: &Option<String>) -> (r: Option<String>)
    ensures
        opt_text(r) == opt_text(*s),
{
    match s {
        Some(t) => Some(t.clone()),
        None => None,
    }
}

impl Schedule {
    /// A copy of the schedule.
    pub fn copy(&self) -> (r: Schedule)
        ensures
            r@ == self@,
    {
        let weekdays = self.weekdays.clone();
        assert(weekdays@ =~= self.weekdays@);
        Schedule {
            kind: self.kind,
            at: copy_opt_text(&self.at),
            weekdays,
            auto_start: self.auto_start,
            last_fired: copy_opt_text(&self.last_fired),
        }
    }
}

impl Task {
    /// A fresh task: a new random id, empty text, the default color,
    /// geometry and timer, and no schedule.
    pub fn new() -> (t: Task)
        ensures
            t@.id.len() == 36,
            t@.title.len() == 0,
            t@.content.len() == 0,
            t@.color == "#fff7b0"@,
            t@.window == (Geometry { x: 120, y: 120, w: 260, h: 260 }),
            t@.timer == default_timer(),
            t@.schedule == no_schedule(),
    {
        Task {
            id: fresh_task_id(),
            title: String::new(),
            content: String::new(),
            color: default_color(),
            window: Geometry::default(),
            timer: Timer::default(),
            schedule: Schedule::default(),
        }
    }

    /// A copy of the task.
    pub fn copy(&self) -> (r: Task)
        ensures
            r@ == self@,
    {
        Task {
            id: self.id.clone(),
            title: self.title.clone(),
            content: self.content.clone(),
            color: self.color.clone(),
            window: self.window,
            timer: self.timer,
            schedule: self.schedule.copy(),
        }
    }
}

} // verus!
