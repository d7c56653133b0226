use std::time::Instant;
use sticky_timer::heartbeat::{BootObservation, Cadence, Observation};
use sticky_timer::schedule::{parse_local, Schedule, ScheduleKind};
use sticky_timer::store::TaskStore;
use sticky_timer::task::{default_color, Geometry, Task};
use sticky_timer::timer::{TimerMode, TimerState};
use sticky_timer::wall::Moment;

fn moment(text: &str) -> Moment {
    parse_local(text).expect("parses")
}

#[test]
fn new_task_has_defaults_and_a_uuid() {
    let t = Task::new();
    assert_eq!(t.id.len(), 36);
    assert_eq!(t.id.chars().filter(|c| *c == '-').count(), 4);
    assert!(t.title.is_empty());
    assert!(t.content.is_empty());
    assert_eq!(t.color, "#fff7b0");
    assert_eq!(default_color(), "#fff7b0");
    assert_eq!(t.window, Geometry { x: 120, y: 120, w: 260, h: 260 });
    assert_eq!(Geometry::default(), Geometry { x: 120, y: 120, w: 260, h: 260 });
    assert_eq!(t.timer.state, TimerState::Idle);
    assert_eq!(t.schedule.kind, ScheduleKind::Off);
    assert_ne!(Task::new().id, t.id);
}

#[test]
fn created_tasks_cascade_their_windows() {
    let mut s = TaskStore::new();
    let mut xs = Vec::new();
    for _ in 0..10 {
        let t = s.create_task(1500);
        assert_eq!(t.window.x, t.window.y);
        xs.push(t.window.x);
    }
    assert_eq!(xs, vec![120, 148, 176, 204, 232, 260, 288, 316, 120, 148]);
    assert_eq!(s.len(), 10);
}

#[test]
fn get_returns_what_was_saved_but_keeps_the_timer() {
    let mut s = TaskStore::new();
    let t = s.create_task(1500);
    s.start_timer(&t.id, Instant::now()).unwrap();
    let mut edited = t.clone();
    edited.title = "Write report".to_string();
    edited.content = "Q3".to_string();
    edited.window.x = 7;
    s.save_task(edited);
    let back = s.get_task(&t.id).unwrap();
    assert_eq!(back.title, "Write report");
    assert_eq!(back.content, "Q3");
    assert_eq!(back.window.x, 7);
    assert_eq!(back.timer.state, TimerState::Running);
    assert_eq!(s.len(), 1);
}

#[test]
fn saving_an_unknown_task_adds_it() {
    let mut s = TaskStore::new();
    let mut t = Task::new();
    t.title = "new".to_string();
    s.save_task(t.clone());
    assert_eq!(s.len(), 1);
    assert_eq!(s.get_task(&t.id).unwrap().title, "new");
}

#[test]
fn delete_forgets_only_that_task() {
    let mut s = TaskStore::new();
    let a = s.create_task(1500);
    let b = s.create_task(1500);
    s.delete_task(&a.id);
    assert_eq!(s.get_task(&a.id).unwrap_err(), format!("no task {}", a.id));
    assert!(s.get_task(&b.id).is_ok());
    s.delete_task("missing");
    assert_eq!(s.len(), 1);
}

#[test]
fn list_keeps_store_order() {
    let mut s = TaskStore::new();
    let a = s.create_task(1500);
    let b = s.create_task(1500);
    let ids: Vec<String> = s.list_tasks().into_iter().map(|t| t.id).collect();
    assert_eq!(ids, vec![a.id, b.id]);
}

#[test]
fn commands_on_unknown_tasks_fail() {
    let mut s = TaskStore::new();
    assert_eq!(s.start_timer("x", Instant::now()), Err("no such task".to_string()));
    assert_eq!(s.pause_timer("x", &Instant::now()), Err("no such task".to_string()));
    assert_eq!(s.reset_timer("x"), Err("no such task".to_string()));
    assert_eq!(s.configure_timer("x", TimerMode::Stopwatch, 5), Err("no such task".to_string()));
    assert_eq!(s.set_schedule("x", Schedule::default()), Err("no such task".to_string()));
    assert_eq!(s.get_task("x").unwrap_err(), "no task x");
    assert!(s.timer_snapshot("x").is_none());
}

#[test]
fn timer_commands_report_whether_they_changed_anything() {
    let mut s = TaskStore::new();
    let t = s.create_task(1500);
    let now = Instant::now();
    assert_eq!(s.start_timer(&t.id, now), Ok(true));
    assert_eq!(s.start_timer(&t.id, now), Ok(false));
    assert_eq!(s.pause_timer(&t.id, &now), Ok(true));
    assert_eq!(s.pause_timer(&t.id, &now), Ok(false));
    assert_eq!(s.configure_timer(&t.id, TimerMode::Countdown, 90), Ok(()));
    let snap = s.timer_snapshot(&t.id).unwrap();
    assert_eq!(snap.id, t.id);
    assert_eq!(snap.remaining_secs, 90);
    assert_eq!(snap.elapsed_secs, 0);
    assert_eq!(snap.state, TimerState::Idle);
    assert_eq!(s.reset_timer(&t.id), Ok(()));
}

#[test]
fn set_schedule_clears_the_guard() {
    let mut s = TaskStore::new();
    let t = s.create_task(1500);
    let sched = Schedule {
        kind: ScheduleKind::Once,
        at: Some("2026-06-28T14:00:00Z".to_string()),
        weekdays: vec![],
        auto_start: true,
        last_fired: Some("old".to_string()),
    };
    assert_eq!(s.set_schedule(&t.id, sched), Ok(()));
    let back = s.get_task(&t.id).unwrap();
    assert_eq!(back.schedule.kind, ScheduleKind::Once);
    assert!(back.schedule.last_fired.is_none());
    assert!(back.schedule.auto_start);
}

#[test]
fn boot_suspends_running_timers() {
    let mut s = TaskStore::new();
    let a = s.create_task(1500);
    let b = s.create_task(1500);
    s.start_timer(&a.id, Instant::now()).unwrap();
    s.suspend_running_timers();
    assert_eq!(s.get_task(&a.id).unwrap().timer.state, TimerState::Paused);
    assert!(s.get_task(&a.id).unwrap().timer.anchor.is_none());
    assert_eq!(s.get_task(&b.id).unwrap().timer.state, TimerState::Idle);
}

#[test]
fn from_tasks_keeps_one_task_per_id() {
    let a = Task::new();
    let mut a2 = a.clone();
    a2.title = "second".to_string();
    let b = Task::new();
    let s = TaskStore::from_tasks(vec![a.clone(), b.clone(), a2]);
    assert_eq!(s.len(), 2);
    assert_eq!(s.get_task(&a.id).unwrap().title, "second");
    assert!(s.get_task(&b.id).is_ok());
}

#[test]
fn heartbeat_advances_timers_and_fires_due_schedules() {
    let mut s = TaskStore::new();
    let a = s.create_task(1500);
    let b = s.create_task(1500);
    let c = s.create_task(1500);
    s.configure_timer(&a.id, TimerMode::Countdown, 10).unwrap();
    s.start_timer(&a.id, Instant::now()).unwrap();
    s.configure_timer(&b.id, TimerMode::Stopwatch, 0).unwrap();
    s.start_timer(&b.id, Instant::now()).unwrap();
    let sched = Schedule {
        kind: ScheduleKind::Once,
        at: Some("2026-06-28T14:00:00Z".to_string()),
        weekdays: vec![],
        auto_start: true,
        last_fired: None,
    };
    s.set_schedule(&c.id, sched).unwrap();
    let wall = moment("2026-06-28T15:00:00Z");
    let obs = vec![
        Observation { run: 12, fire_at: None },
        Observation { run: 3, fire_at: None },
        Observation { run: 0, fire_at: Some(moment("2026-06-28T14:00:00Z")) },
    ];
    let beat = s.apply_heartbeat(&obs, &wall);
    assert_eq!(beat.ticks.len(), 2);
    assert_eq!(beat.ticks[0].id, a.id);
    assert_eq!(beat.ticks[0].state, TimerState::Done);
    assert_eq!(beat.ticks[0].remaining_secs, 0);
    assert_eq!(beat.ticks[1].id, b.id);
    assert_eq!(beat.ticks[1].elapsed_secs, 3);
    assert_eq!(beat.dones.len(), 1);
    assert_eq!(beat.dones[0].id, a.id);
    assert_eq!(beat.fires.len(), 1);
    assert_eq!(beat.fires[0].id, c.id);
    assert!(beat.fires[0].auto_start);
    assert_eq!(s.get_task(&c.id).unwrap().schedule.kind, ScheduleKind::Off);

    let again = s.apply_heartbeat(
        &vec![
            Observation { run: 20, fire_at: None },
            Observation { run: 4, fire_at: None },
            Observation { run: 0, fire_at: None },
        ],
        &wall,
    );
    assert_eq!(again.ticks.len(), 1);
    assert!(again.dones.is_empty());
    assert!(again.fires.is_empty());
}

#[test]
fn heartbeat_with_the_real_clocks() {
    let mut s = TaskStore::new();
    let a = s.create_task(1500);
    s.start_timer(&a.id, Instant::now()).unwrap();
    let beat = s.heartbeat(&Instant::now(), &Moment::now());
    assert_eq!(beat.ticks.len(), 1);
    assert_eq!(beat.ticks[0].state, TimerState::Running);
    assert!(beat.fires.is_empty());
}

#[test]
fn boot_reconciliation_fires_recent_one_shots_only() {
    let mut s = TaskStore::new();
    let a = s.create_task(1500);
    let b = s.create_task(1500);
    for id in [&a.id, &b.id] {
        let sched = Schedule {
            kind: ScheduleKind::Once,
            at: Some("2026-06-28T14:58:00Z".to_string()),
            weekdays: vec![],
            auto_start: false,
            last_fired: None,
        };
        s.set_schedule(id, sched).unwrap();
    }
    let wall = moment("2026-06-28T15:00:00Z");
    let obs = vec![
        BootObservation { fire_at: Some(moment("2026-06-28T14:58:00Z")), overdue: 120 },
        BootObservation { fire_at: Some(moment("2026-06-28T14:58:00Z")), overdue: 600 },
    ];
    let plans = s.apply_boot(&obs, &wall);
    assert_eq!(plans.len(), 1);
    assert_eq!(plans[0].id, a.id);
    assert!(!plans[0].auto_start);
    assert_eq!(s.get_task(&a.id).unwrap().schedule.kind, ScheduleKind::Off);
    assert_eq!(s.get_task(&b.id).unwrap().schedule.kind, ScheduleKind::Off);
    assert!(s.get_task(&b.id).unwrap().schedule.last_fired.is_none());
}

#[test]
fn boot_reconciliation_with_the_real_clock() {
    let mut s = TaskStore::new();
    let a = s.create_task(1500);
    let sched = Schedule {
        kind: ScheduleKind::Once,
        at: Some("2001-01-01T00:00:00Z".to_string()),
        weekdays: vec![],
        auto_start: false,
        last_fired: None,
    };
    s.set_schedule(&a.id, sched).unwrap();
    let plans = s.reconcile_on_boot(&Moment::now());
    assert!(plans.is_empty());
    assert_eq!(s.get_task(&a.id).unwrap().schedule.kind, ScheduleKind::Off);
}

#[test]
fn global_pause_skips_the_beat_entirely() {
    let mut s = TaskStore::new();
    let a = s.create_task(1500);
    s.start_timer(&a.id, Instant::now()).unwrap();
    let mut cadence = Cadence::new();
    let out = s.heartbeat_turn(&mut cadence, true, &Instant::now(), &Moment::now());
    assert!(out.is_none());
    assert_eq!(cadence.ticks_since_persist, 0);
    let out = s.heartbeat_turn(&mut cadence, false, &Instant::now(), &Moment::now());
    let (beat, persist) = out.unwrap();
    assert_eq!(beat.ticks.len(), 1);
    assert!(!persist);
    assert_eq!(cadence.ticks_since_persist, 1);
}

#[test]
fn listed_tasks_reload_to_the_same_store() {
    let mut s = TaskStore::new();
    let a = s.create_task(1500);
    let b = s.create_task(600);
    s.configure_timer(&b.id, TimerMode::Stopwatch, 0).unwrap();
    let listed = s.list_tasks();
    let again = TaskStore::from_tasks(s.list_tasks());
    assert_eq!(again.len(), s.len());
    let relisted = again.list_tasks();
    for (x, y) in listed.iter().zip(relisted.iter()) {
        assert_eq!(x.id, y.id);
        assert_eq!(x.title, y.title);
        assert_eq!(x.timer.mode, y.timer.mode);
        assert_eq!(x.timer.duration_secs, y.timer.duration_secs);
    }
    assert_eq!(relisted[0].id, a.id);
    assert_eq!(relisted[1].id, b.id);
}
