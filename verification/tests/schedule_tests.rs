use sticky_timer::schedule::{
    next_fire_time, parse_local, parse_local_at, pick_slot, today_at, DaySlot, Schedule,
    ScheduleKind,
};
use sticky_timer::wall::Moment;

fn moment(text: &str) -> Moment {
    parse_local(text).expect("parses")
}

fn once_at(text: &str) -> Schedule {
    Schedule {
        kind: ScheduleKind::Once,
        at: Some(text.to_string()),
        weekdays: vec![],
        auto_start: true,
        last_fired: None,
    }
}

#[test]
fn default_schedule_is_off() {
    let s = Schedule::default();
    assert_eq!(s.kind, ScheduleKind::Off);
    assert!(s.at.is_none());
    assert!(s.weekdays.is_empty());
    assert!(!s.auto_start);
    assert!(s.last_fired.is_none());
    assert_eq!(ScheduleKind::default(), ScheduleKind::Off);
}

#[test]
fn parse_local_accepts_the_documented_forms() {
    assert!(parse_local("2026-06-28T14:30:00+02:00").is_some());
    assert!(parse_local("2026-06-28T14:30:00Z").is_some());
    assert!(parse_local("2026-06-28T14:30:00").is_some());
    assert!(parse_local("2026-06-28T14:30").is_some());
    assert!(parse_local("14:30:15").is_some());
    assert!(parse_local("14:30").is_some());
    assert!(parse_local("tomorrow").is_none());
    assert!(parse_local("").is_none());
}

#[test]
fn rfc3339_instants_keep_their_instant() {
    let a = moment("2026-06-28T14:30:00+02:00");
    let b = moment("2026-06-28T12:30:00Z");
    assert_eq!(a.secs(), b.secs());
    assert_eq!(a.secs(), 1_782_649_800);
    assert_eq!(a.nanos(), 0);
    let c = moment("2026-06-28T12:30:00.5Z");
    assert_eq!(c.nanos(), 500_000_000);
    assert!(b.before(&c));
    assert!(b.not_after(&a));
    assert!(!c.not_after(&b));
}

#[test]
fn off_schedule_never_fires() {
    let now = Moment::now();
    assert!(next_fire_time(&Schedule::default(), &now).is_none());
}

#[test]
fn one_shot_fires_at_its_instant() {
    let now = moment("2026-06-28T15:00:00Z");
    let s = once_at("2026-06-28T14:00:00Z");
    let at = next_fire_time(&s, &now).expect("a one-shot has its instant");
    assert_eq!(at.secs(), moment("2026-06-28T14:00:00Z").secs());
    let mut none = once_at("x");
    none.at = None;
    assert!(next_fire_time(&none, &now).is_none());
}

#[test]
fn weekly_schedule_needs_days_and_a_time() {
    let now = Moment::now();
    let mut s = Schedule {
        kind: ScheduleKind::Recurring,
        at: Some("09:00".to_string()),
        weekdays: vec![],
        auto_start: false,
        last_fired: None,
    };
    assert!(next_fire_time(&s, &now).is_none());
    s.weekdays = vec![0, 1, 2, 3, 4, 5, 6];
    s.at = None;
    assert!(next_fire_time(&s, &now).is_none());
    s.at = Some("09:00".to_string());
    assert!(next_fire_time(&s, &now).is_some());
}

#[test]
fn weekly_schedule_on_every_day_fires_within_a_day() {
    let now = Moment::now();
    let s = Schedule {
        kind: ScheduleKind::Recurring,
        at: Some("00:00".to_string()),
        weekdays: vec![0, 1, 2, 3, 4, 5, 6],
        auto_start: false,
        last_fired: None,
    };
    let at = next_fire_time(&s, &now).expect("every day has a slot");
    // Today's midnight is due right now.
    assert!(at.not_after(&now));
    assert!(now.secs() - at.secs() <= 86_400 + 3_600);
}

#[test]
fn fired_slot_today_is_skipped() {
    let now = Moment::now();
    let mut s = Schedule {
        kind: ScheduleKind::Recurring,
        at: Some("00:00".to_string()),
        weekdays: vec![0, 1, 2, 3, 4, 5, 6],
        auto_start: false,
        last_fired: None,
    };
    let today = next_fire_time(&s, &now).unwrap();
    s.last_fired = Some(today.stamp_text());
    let next = next_fire_time(&s, &now).unwrap();
    assert!(today.before(&next));
    assert!(now.before(&next));
}

#[test]
fn take_due_fires_once_per_instant_and_spends_a_one_shot() {
    let now = moment("2026-06-28T15:00:00Z");
    let fire = Some(moment("2026-06-28T14:00:00Z"));
    let mut s = once_at("2026-06-28T14:00:00Z");
    assert!(s.take_due(&fire, &now));
    assert_eq!(s.kind, ScheduleKind::Off);
    assert_eq!(s.last_fired, Some(fire.as_ref().unwrap().stamp_text()));
    assert!(!s.take_due(&fire, &now));

    let mut weekly = once_at("09:00");
    weekly.kind = ScheduleKind::Recurring;
    assert!(weekly.take_due(&fire, &now));
    assert_eq!(weekly.kind, ScheduleKind::Recurring);
    assert!(!weekly.take_due(&fire, &now));
}

#[test]
fn take_due_waits_for_the_instant() {
    let now = moment("2026-06-28T13:00:00Z");
    let fire = Some(moment("2026-06-28T14:00:00Z"));
    let mut s = once_at("2026-06-28T14:00:00Z");
    assert!(!s.take_due(&fire, &now));
    assert_eq!(s.kind, ScheduleKind::Once);
    assert!(!s.take_due(&None, &now));
}

#[test]
fn boot_honours_grace_and_drops_stale_one_shots() {
    let now = moment("2026-06-28T15:00:00Z");
    let fire = Some(moment("2026-06-28T14:58:00Z"));
    let mut recent = once_at("2026-06-28T14:58:00Z");
    assert!(recent.settle_at_boot(&fire, &now, 120));
    assert_eq!(recent.kind, ScheduleKind::Off);
    assert!(recent.last_fired.is_some());

    let mut edge = once_at("2026-06-28T14:55:00Z");
    assert!(edge.settle_at_boot(&fire, &now, 300));

    let mut stale = once_at("2026-06-28T10:00:00Z");
    assert!(!stale.settle_at_boot(&fire, &now, 301));
    assert_eq!(stale.kind, ScheduleKind::Off);
    assert!(stale.last_fired.is_none());

    let mut weekly = once_at("14:58");
    weekly.kind = ScheduleKind::Recurring;
    assert!(!weekly.settle_at_boot(&fire, &now, 120));
    assert_eq!(weekly.kind, ScheduleKind::Recurring);
    assert_eq!(weekly.last_fired, Some(fire.as_ref().unwrap().stamp_text()));

    let mut future = once_at("2026-06-28T16:00:00Z");
    let later = Some(moment("2026-06-28T16:00:00Z"));
    assert!(!future.settle_at_boot(&later, &now, -3600));
    assert_eq!(future.kind, ScheduleKind::Once);
}

#[test]
fn reconcile_at_boot_uses_the_schedule_instant() {
    let now = Moment::now();
    let mut stale = once_at("2001-01-01T00:00:00Z");
    assert!(!stale.reconcile_at_boot(&now));
    assert_eq!(stale.kind, ScheduleKind::Off);
}

#[test]
fn arm_clears_the_duplicate_guard() {
    let mut s = once_at("2026-06-28T14:00:00Z");
    s.last_fired = Some("x".to_string());
    s.arm();
    assert!(s.last_fired.is_none());
    assert_eq!(s.kind, ScheduleKind::Once);
}

#[test]
fn pick_slot_prefers_a_due_today_then_the_earliest() {
    let now = moment("2026-06-29T12:00:00Z");
    let slots = vec![
        Some(DaySlot { weekday: 0, reading: 0, nanos: 0, at: Some(moment("2026-06-29T09:00:00Z")) }),
        Some(DaySlot { weekday: 1, reading: 0, nanos: 0, at: Some(moment("2026-06-30T09:00:00Z")) }),
        Some(DaySlot { weekday: 2, reading: 0, nanos: 0, at: Some(moment("2026-07-01T09:00:00Z")) }),
    ];
    assert_eq!(pick_slot(&slots, &vec![0, 2], &None, &now), Some(0));
    assert_eq!(pick_slot(&slots, &vec![1, 2], &None, &now), Some(1));
    let fired_today = Some(slots[0].as_ref().unwrap().at.as_ref().unwrap().stamp_text());
    assert_eq!(pick_slot(&slots, &vec![0, 2], &fired_today, &now), Some(2));
    assert_eq!(pick_slot(&slots, &vec![5], &None, &now), None);
    let gap = vec![Some(DaySlot { weekday: 0, reading: 0, nanos: 0, at: None }), None];
    assert_eq!(pick_slot(&gap, &vec![0], &None, &now), None);
}

#[test]
fn pick_slot_takes_a_later_today_slot_when_it_is_earliest() {
    let now = moment("2026-06-29T08:00:00Z");
    let slots = vec![
        Some(DaySlot { weekday: 0, reading: 0, nanos: 0, at: Some(moment("2026-06-29T09:00:00Z")) }),
        Some(DaySlot { weekday: 1, reading: 0, nanos: 0, at: Some(moment("2026-06-30T09:00:00Z")) }),
    ];
    assert_eq!(pick_slot(&slots, &vec![0, 1], &None, &now), Some(0));
}

#[test]
fn moments_know_their_local_day_and_time() {
    let m = moment("2026-07-01T14:30:05+02:00");
    assert_eq!(m.offset_secs(), m.offset_secs());
    let utc = moment("2026-07-01T12:30:05Z");
    assert_eq!(utc.secs(), m.secs());
    let reading = m.secs() + m.offset_secs() as i64;
    assert_eq!(m.local_day(), reading.div_euclid(86_400));
    assert_eq!(m.day_secs() as i64, reading.rem_euclid(86_400));
    // 2026-07-01 is a Wednesday (Monday is 0).
    assert_eq!(sticky_timer::wall::weekday_of(20_635), 2);
    assert_eq!(sticky_timer::wall::weekday_of(0), 3);
}

#[test]
fn whole_seconds_between_moments() {
    let a = moment("2026-06-28T15:00:00Z");
    let b = moment("2026-06-28T14:58:00.5Z");
    assert_eq!(sticky_timer::wall::whole_secs_between(&a, &b), 119);
    assert_eq!(sticky_timer::wall::whole_secs_between(&b, &a), -119);
    assert_eq!(sticky_timer::wall::whole_secs_between(&a, &a), 0);
}

#[test]
fn stamps_are_rfc3339() {
    let m = moment("2026-06-28T14:30:00Z");
    assert!(parse_local(m.stamp()).is_some());
    assert_eq!(parse_local(m.stamp()).unwrap().secs(), m.secs());
}

#[test]
fn bare_date_time_shows_that_reading_locally() {
    let m = parse_local("2026-06-28T14:30").unwrap();
    let reading = m.secs() + m.offset_secs() as i64;
    assert_eq!(reading.rem_euclid(86_400), 14 * 3600 + 30 * 60);
    let t = parse_local("14:30:05").unwrap();
    assert_eq!(t.day_secs(), 14 * 3600 + 30 * 60 + 5);
}

#[test]
fn weekly_slot_a_week_later_after_firing_today() {
    let now = Moment::now();
    let today = now.local_day();
    let wd = sticky_timer::wall::weekday_of(today);
    let mut s = Schedule {
        kind: ScheduleKind::Recurring,
        at: Some("00:00".to_string()),
        weekdays: vec![wd],
        auto_start: false,
        last_fired: None,
    };
    let first = next_fire_time(&s, &now).unwrap();
    assert_eq!(first.local_day(), today);
    s.last_fired = Some(first.stamp_text());
    let next = next_fire_time(&s, &now).unwrap();
    assert_eq!(next.local_day(), today + 7);
}

#[test]
fn bare_time_falls_on_the_day_of_the_reading() {
    let now = moment("2026-06-28T12:00:00");
    let t = parse_local_at("14:30", &now).expect("parses");
    assert_eq!(t.local_day(), now.local_day());
    assert_eq!(t.day_secs(), 14 * 3600 + 30 * 60);
    let u = parse_local_at("14:30:05", &now).expect("parses");
    assert_eq!(u.local_day(), now.local_day());
    assert_eq!(u.day_secs(), 14 * 3600 + 30 * 60 + 5);
    let fixed = moment("2026-06-28T14:30");
    assert_eq!(t.secs(), fixed.secs());
}

#[test]
fn today_at_keeps_the_local_day() {
    let now = moment("2026-03-01T23:59:00");
    let m = today_at(&now, 60, 0).expect("shown");
    assert_eq!(m.local_day(), now.local_day());
    assert_eq!(m.day_secs(), 60);
    assert!(m.before(&now));
}

#[test]
fn bare_time_today_by_the_clock() {
    let before = Moment::now().local_day();
    let t = parse_local("00:00:01").expect("parses");
    let after = Moment::now().local_day();
    assert!(t.local_day() == before || t.local_day() == after);
}

#[test]
fn one_shot_fires_once_across_boot_and_beats() {
    let fire = Some(moment("2026-06-28T14:58:00Z"));
    let now = moment("2026-06-28T15:00:00Z");
    let later = moment("2026-06-28T15:00:01Z");
    let mut s = once_at("2026-06-28T14:58:00Z");
    assert!(s.settle_at_boot(&fire, &now, 120));
    assert!(!s.take_due(&fire, &later));
    assert!(!s.settle_at_boot(&fire, &later, 121));
    assert!(!s.heartbeat(&later));
    assert_eq!(s.kind, ScheduleKind::Off);

    let mut t = once_at("2026-06-28T14:58:00Z");
    let mut fires = 0;
    for m in [&now, &later, &now, &later] {
        if t.take_due(&fire, m) {
            fires += 1;
        }
        if t.heartbeat(m) {
            fires += 1;
        }
    }
    assert_eq!(fires, 1);
}

#[test]
fn weekly_fires_once_for_the_same_instant_second_after_second() {
    let fire = Some(moment("2026-06-28T14:58:00Z"));
    let mut w = once_at("14:58");
    w.kind = ScheduleKind::Recurring;
    w.weekdays = vec![0, 1, 2, 3, 4, 5, 6];
    let mut fires = 0;
    for t in ["2026-06-28T14:58:00Z", "2026-06-28T14:58:01Z", "2026-06-28T14:58:02Z"] {
        if w.take_due(&fire, &moment(t)) {
            fires += 1;
        }
    }
    assert_eq!(fires, 1);
    assert_eq!(w.kind, ScheduleKind::Recurring);
}
