use std::time::Instant;
use sticky_timer::timer::{Advance, Timer, TimerMode, TimerState};

fn countdown(duration: u64) -> Timer {
    let mut t = Timer::default();
    t.configure(TimerMode::Countdown, duration);
    t
}

#[test]
fn default_timer_is_an_idle_pomodoro() {
    let t = Timer::default();
    assert_eq!(t.mode, TimerMode::Countdown);
    assert_eq!(t.duration_secs, 1500);
    assert_eq!(t.remaining_secs, 1500);
    assert_eq!(t.elapsed_secs, 0);
    assert_eq!(t.state, TimerState::Idle);
    assert!(t.anchor.is_none());
}

#[test]
fn start_arms_the_anchor_with_banked_seconds() {
    let mut t = countdown(100);
    t.remaining_secs = 60;
    t.elapsed_secs = 40;
    t.state = TimerState::Paused;
    let now = Instant::now();
    t.start(now);
    assert_eq!(t.state, TimerState::Running);
    let a = t.anchor.unwrap();
    assert_eq!(a.base_secs, 40);
    assert_eq!(a.started_at, now);
}

#[test]
fn start_is_a_no_op_when_running_or_done() {
    let mut t = countdown(10);
    let first = Instant::now();
    t.start(first);
    t.start(Instant::now());
    assert_eq!(t.anchor.unwrap().started_at, first);

    let mut d = countdown(10);
    d.start(Instant::now());
    assert_eq!(d.advance(10), Advance::Finished);
    d.start(Instant::now());
    assert_eq!(d.state, TimerState::Done);
    assert!(d.anchor.is_none());
}

#[test]
fn countdown_advances_and_finishes() {
    let mut t = countdown(10);
    t.start(Instant::now());
    assert_eq!(t.advance(3), Advance::Moved);
    assert_eq!(t.elapsed_secs, 3);
    assert_eq!(t.remaining_secs, 7);
    assert_eq!(t.state, TimerState::Running);
    assert_eq!(t.advance(12), Advance::Finished);
    assert_eq!(t.remaining_secs, 0);
    assert_eq!(t.elapsed_secs, 10);
    assert_eq!(t.state, TimerState::Done);
    assert!(t.anchor.is_none());
    assert_eq!(t.advance(20), Advance::Still);
}

#[test]
fn stopwatch_counts_up_from_its_base() {
    let mut t = Timer::default();
    t.configure(TimerMode::Stopwatch, 0);
    assert_eq!(t.duration_secs, 0);
    t.elapsed_secs = 5;
    t.start(Instant::now());
    assert_eq!(t.advance(100), Advance::Moved);
    assert_eq!(t.elapsed_secs, 105);
    assert_eq!(t.remaining_secs, 0);
}

#[test]
fn pause_folds_like_a_tick_and_clamps_at_zero() {
    let mut a = countdown(10);
    a.start(Instant::now());
    let mut b = a;
    b.pause_after(4);
    a.advance(4);
    assert_eq!(b.elapsed_secs, a.elapsed_secs);
    assert_eq!(b.remaining_secs, a.remaining_secs);
    assert_eq!(b.state, TimerState::Paused);
    assert!(b.anchor.is_none());

    let mut c = countdown(10);
    c.start(Instant::now());
    c.pause_after(50);
    assert_eq!(c.elapsed_secs, 10);
    assert_eq!(c.remaining_secs, 0);
    assert_eq!(c.state, TimerState::Paused);
}

#[test]
fn pause_ignores_a_timer_that_is_not_running() {
    let mut t = countdown(10);
    t.pause_after(5);
    assert_eq!(t.state, TimerState::Idle);
    assert_eq!(t.remaining_secs, 10);
}

#[test]
fn pause_at_now_keeps_the_numbers_consistent() {
    let mut t = countdown(1000);
    let now = Instant::now();
    t.start(now);
    t.pause(&now);
    assert_eq!(t.state, TimerState::Paused);
    assert_eq!(t.elapsed_secs + t.remaining_secs, 1000);
}

#[test]
fn resume_continues_where_it_paused() {
    let mut t = countdown(60);
    t.start(Instant::now());
    t.pause_after(25);
    t.start(Instant::now());
    assert_eq!(t.anchor.unwrap().base_secs, 25);
    t.advance(5);
    assert_eq!(t.elapsed_secs, 30);
    assert_eq!(t.remaining_secs, 30);
}

#[test]
fn reset_returns_to_the_configured_start() {
    let mut t = countdown(90);
    t.start(Instant::now());
    t.advance(30);
    t.reset();
    assert_eq!(t.state, TimerState::Idle);
    assert_eq!(t.remaining_secs, 90);
    assert_eq!(t.elapsed_secs, 0);
    assert!(t.anchor.is_none());
    let again = t;
    t.reset();
    assert_eq!(t.remaining_secs, again.remaining_secs);
    t.start(Instant::now());
    assert_eq!(t.anchor.unwrap().base_secs, 0);
}

#[test]
fn configure_sets_the_duration_given() {
    let mut t = countdown(300);
    t.configure(TimerMode::Stopwatch, 0);
    assert_eq!(t.duration_secs, 0);
    assert_eq!(t.remaining_secs, 0);
    t.configure(TimerMode::Countdown, 45);
    assert_eq!(t.duration_secs, 45);
    assert_eq!(t.remaining_secs, 45);
    assert_eq!(t.state, TimerState::Idle);
}

#[test]
fn boot_pauses_a_running_timer() {
    let mut t = countdown(100);
    t.start(Instant::now());
    t.advance(20);
    t.suspend_for_boot();
    assert_eq!(t.state, TimerState::Paused);
    assert!(t.anchor.is_none());
    assert_eq!(t.elapsed_secs, 20);
    assert_eq!(t.remaining_secs, 80);
    let mut idle = countdown(100);
    idle.suspend_for_boot();
    assert_eq!(idle.state, TimerState::Idle);
}

#[test]
fn countdown_never_goes_up_as_time_moves_on() {
    let mut a = countdown(100);
    a.start(Instant::now());
    let mut b = a;
    a.advance(10);
    b.advance(40);
    assert!(b.remaining_secs <= a.remaining_secs);
}

#[test]
fn run_seconds_from_the_monotonic_clock() {
    let mut t = countdown(100);
    let now = Instant::now();
    t.start(now);
    assert_eq!(t.run_secs_at(&now), 0);
    let idle = countdown(100);
    assert_eq!(idle.run_secs_at(&Instant::now()), 0);
}

#[test]
fn resume_after_global_pause_drops_the_paused_time() {
    let mut t = countdown(100);
    t.start(Instant::now());
    t.advance(30);
    let later = Instant::now();
    t.resume_after_global_pause(later);
    let a = t.anchor.unwrap();
    assert_eq!(a.base_secs, 30);
    assert_eq!(a.started_at, later);
    t.advance(5);
    assert_eq!(t.elapsed_secs, 35);
    let mut idle = countdown(100);
    idle.resume_after_global_pause(Instant::now());
    assert!(idle.anchor.is_none());
}
