//! Task schedules: a one-shot instant, or a weekly time of day on chosen
//! weekdays, and the rules for when one fires.

use crate::wall::{
    before, day_secs, local_day, local_from_naive, local_now, naive_datetime_reading,
    naive_time_reading, not_after, parse_naive_datetime, parse_naive_time, parse_rfc3339_local,
    reading, rfc3339_instant, secs_between, valid, weekday_of, weekday_of_day,
    whole_secs_between, Moment,
};
use vstd::prelude::*;

verus! {

/// What kind of schedule a task has.
#[derive(Clone, Copy, Debug, PartialEq, Eq, Structural)]
pub enum ScheduleKind {
    /// No schedule (stored as "none").
    Off,
    Once,
    Recurring,
}

impl Default for ScheduleKind {
    fn default() -> (k: ScheduleKind)
        ensures
            k == ScheduleKind::Off,
    {
        ScheduleKind::Off
    }
}

/// A task's schedule.
#[derive(Clone, Debug)]
pub struct Schedule {
    /// none | once | recurring
    pub kind: ScheduleKind,
    /// For `Once`: the instant (RFC 3339, or a bare local date-time).
    /// For `Recurring`: only its time of day is used.
    pub at: Option<String>,
    /// `Recurring` only: weekday numbers, Monday 0 to Sunday 6.
    pub weekdays: Vec<u8>,
    /// Start the timer when it fires; otherwise only notify.
    pub auto_start: bool,
    /// Duplicate-fire guard: RFC 3339 text of the last instant fired for.
    pub last_fired: Option<String>,
}

/// A schedule as plain values.
pub struct ScheduleView {
    pub kind: ScheduleKind,
    pub at: Option<Seq<char>>,
    pub weekdays: Seq<u8>,
    pub auto_start: bool,
    pub last_fired: Option<Seq<char>>,
}

pub open spec fn opt_text(s: Option<String>) -> Option<Seq<char>> {
    match s {
        Some(t) => Some(t@),
        None => None,
    }
}

impl View for Schedule {
    type V = ScheduleView;

    open spec fn view(&self) -> ScheduleView {
        ScheduleView {
            kind: self.kind,
            at: opt_text(self.at),
            weekdays: self.weekdays@,
            auto_start: self.auto_start,
            last_fired: opt_text(self.last_fired),
        }
    }
}

/// No schedule.
pub open spec fn no_schedule() -> ScheduleView {
    ScheduleView {
        kind: ScheduleKind::Off,
        at: None,
        weekdays: Seq::empty(),
        auto_start: false,
        last_fired: None,
    }
}

impl Default for Schedule {
    /// No schedule.
    fn default() -> (s: Schedule)
        ensures
            s@ == no_schedule(),
    {
        Schedule {
            kind: ScheduleKind::Off,
            at: None,
            weekdays: Vec::new(),
            auto_start: false,
            last_fired: None,
        }
    }
}

/// One of the days a weekly schedule looks at: its weekday (Monday 0), the
/// reading of the local clock that the schedule's time of day gives on it,
/// and the local moment of that reading, if the local clock shows it.
#[derive(Debug)]
pub struct DaySlot {
    pub weekday: u8,
    pub reading: i64,
    pub nanos: u32,
    pub at: Option<Moment>,
}

/// The formats of a bare local date-time, with and without seconds.
pub open spec fn datetime_formats() -> (Seq<char>, Seq<char>) {
    ("%Y-%m-%dT%H:%M:%S"@, "%Y-%m-%dT%H:%M"@)
}

/// The formats of a bare time of day, with and without seconds.
pub open spec fn time_formats() -> (Seq<char>, Seq<char>) {
    ("%H:%M:%S"@, "%H:%M"@)
}

/// A text that one of the accepted forms parses: RFC 3339, a bare local
/// date-time with or without seconds, or a bare time of day.
pub open spec fn local_text_accepts(s: Seq<char>) -> bool {
    ||| rfc3339_instant(s) is Some
    ||| naive_datetime_reading(s, datetime_formats().0) is Some
    ||| naive_datetime_reading(s, datetime_formats().1) is Some
    ||| naive_time_reading(s, time_formats().0) is Some
    ||| naive_time_reading(s, time_formats().1) is Some
}

/// The moment shows the bare date-time `r` (seconds and nanoseconds) on the
/// local clock.
pub open spec fn shows_reading(m: Moment, r: Option<(i64, u32)>) -> bool {
    r matches Some(v) && reading(m@) == v.0 && m@.nanos == v.1
}

/// The moment falls on the local calendar day of `now`, at the bare time of
/// day `t`.
pub open spec fn shows_time(m: Moment, now: Moment, t: Option<(u32, u32)>) -> bool {
    t matches Some(v) && local_day(m@) == local_day(now@) && day_secs(m@) == v.0 && m@.nanos
        == v.1
}

/// What `parse_local_at` gives for the text read at `now`: the instant an
/// RFC 3339 text names; otherwise nothing for a text no form parses, and a
/// moment that shows on the local clock the bare date-time one of the forms
/// read, or that falls on the local day of `now` at the time of day one of
/// them read (which form is tried first, and whether the local clock shows
/// that reading, decide between them).
pub open spec fn parsed_as(s: Seq<char>, now: Moment, r: Option<Moment>) -> bool {
    match rfc3339_instant(s) {
        Some(i) => r matches Some(m) && valid(m@) && m@.secs == i.0 && m@.nanos == i.1,
        None => match r {
            None => true,
            Some(m) => valid(m@) && (shows_reading(m, naive_datetime_reading(s, datetime_formats().0))
                || shows_reading(m, naive_datetime_reading(s, datetime_formats().1)) || shows_time(
                m,
                now,
                naive_time_reading(s, time_formats().0),
            ) || shows_time(m, now, naive_time_reading(s, time_formats().1))),
        },
    }
}

/// The days a weekly schedule looks at: eight, from `today` on; day `k` is
/// `today + k` with its weekday, the reading of the local clock at the time
/// of day `(secs, nanos)` on it, and, when the clock shows that reading, the
/// moment that does.
pub open spec fn slots_fit(slots: Seq<Option<DaySlot>>, today: int, secs: int, nanos: int) -> bool {
    &&& slots.len() == 8
    &&& forall|k: int|
        0 <= k < 8 ==> {
            &&& (#[trigger] slots[k]) is Some
            &&& slots[k]->0.weekday == weekday_of_day(today + k)
            &&& slots[k]->0.reading == (today + k) * 86400 + secs
            &&& slots[k]->0.nanos == nanos
            &&& slots[k]->0.at matches Some(m) ==> valid(m@) && reading(m@) == slots[k]->0.reading
                && m@.nanos == nanos
        }
}

/// The moment of the day `pick_spec` picks, if any.
pub open spec fn picked(
    slots: Seq<Option<DaySlot>>,
    weekdays: Seq<u8>,
    last_fired: Option<Seq<char>>,
    now: Moment,
) -> Option<Moment> {
    match pick_spec(slots, weekdays, last_fired, now) {
        Some(i) => slots[i]->0.at,
        None => None,
    }
}

/// What `next_fire_time` gives for a schedule at `now`. None without a
/// schedule. A one-shot: its instant, as `parse_local_at` reads it at `now`. A weekly
/// schedule: nothing without weekdays, without a time, or with a time no
/// form reads; otherwise the day picked among today and the next seven days
/// at that time of day.
pub open spec fn fire_time_ok(s: ScheduleView, now: Moment, r: Option<Moment>) -> bool {
    match s.kind {
        ScheduleKind::Off => r is None,
        ScheduleKind::Once => match s.at {
            None => r is None,
            Some(a) => parsed_as(a, now, r),
        },
        ScheduleKind::Recurring => match s.at {
            None => r is None,
            Some(a) => if s.weekdays.len() == 0 {
                r is None
            } else {
                exists|p: Option<Moment>|
                    #![trigger parsed_as(a, now, p)]
                    parsed_as(a, now, p) && match p {
                        None => r is None,
                        Some(pm) => exists|slots: Seq<Option<DaySlot>>|
                            #![trigger slots_fit(slots, local_day(now@), day_secs(pm@), pm@.nanos)]
                            slots_fit(slots, local_day(now@), day_secs(pm@), pm@.nanos) && r
                                == picked(slots, s.weekdays, s.last_fired, now),
                    }
            },
        },
    }
}

/// Day `k` of `slots` can fire: it is a chosen weekday, the time exists on
/// it, and, for today, it is not the instant already fired for.
pub open spec fn is_candidate(
    slots: Seq<Option<DaySlot>>,
    k: int,
    weekdays: Seq<u8>,
    last_fired: Option<Seq<char>>,
) -> bool {
    &&& slots[k] is Some
    &&& weekdays.contains(slots[k]->0.weekday)
    &&& slots[k]->0.at is Some
    &&& !(k == 0 && last_fired == Some(slots[k]->0.at->0@.stamp))
}

/// The moment of day `k` (meaningful for a candidate).
pub open spec fn slot_moment(slots: Seq<Option<DaySlot>>, k: int) -> Moment {
    slots[k]->0.at->0
}

/// Among the first `n` days, the earliest candidate (the first on a tie).
pub open spec fn earliest(
    slots: Seq<Option<DaySlot>>,
    n: int,
    weekdays: Seq<u8>,
    last_fired: Option<Seq<char>>,
) -> Option<int>
    decreases n,
{
    if n <= 0 {
        None
    } else {
        let b = earliest(slots, n - 1, weekdays, last_fired);
        if is_candidate(slots, n - 1, weekdays, last_fired) && (b is None || before(
            slot_moment(slots, n - 1),
            slot_moment(slots, b->0),
        )) {
            Some(n - 1)
        } else {
            b
        }
    }
}

/// The day a weekly schedule fires next: today, if today's slot is a
/// candidate already due; otherwise the earliest candidate.
pub open spec fn pick_spec(
    slots: Seq<Option<DaySlot>>,
    weekdays: Seq<u8>,
    last_fired: Option<Seq<char>>,
    now: Moment,
) -> Option<int> {
    if slots.len() > 0 && is_candidate(slots, 0, weekdays, last_fired) && not_after(
        slot_moment(slots, 0),
        now,
    ) {
        Some(0)
    } else {
        earliest(slots, slots.len() as int, weekdays, last_fired)
    }
}

/// The earliest candidate is a candidate among the days looked at.
pub proof fn lemma_earliest_is_candidate(
    slots: Seq<Option<DaySlot>>,
    n: int,
    weekdays: Seq<u8>,
    last_fired: Option<Seq<char>>,
)
    requires
        n <= slots.len(),
    ensures
        earliest(slots, n, weekdays, last_fired) matches Some(b) ==> 0 <= b < n && is_candidate(
            slots,
            b,
            weekdays,
            last_fired,
        ),
    decreases n,
{
    if n > 0 {
        lemma_earliest_is_candidate(slots, n - 1, weekdays, last_fired);
    }
}

/// Whether `v` holds `x`.
pub fn holds_weekday(v: &Vec<u8>, x: u8) -> (b: bool)
    ensures
        b == v@.contains(x),
{
    let mut i: usize = 0;
    while i < v.len()
        invariant
            i <= v.len(),
            forall|j: int| 0 <= j < i ==> v@[j] != x,
        decreases v.len() - i,
    {
        if v[i] == x {
            assert(v@[i as int] == x);
            return true;
        }
        i = i + 1;
    }
    false
}

/// Whether the text `a` equals the optional text `b`.
fn same_text(a: &Option<String>, b: &String) -> (r: bool)
    ensures
        r == (opt_text(*a) == Some(b@)),
{
    match a {
        Some(t) => t.eq(b),
        None => false,
    }
}

/// Whether day `k` is a candidate.
fn candidate_at(
    slots: &Vec<Option<DaySlot>>,
    k: usize,
    weekdays: &Vec<u8>,
    last_fired: &Option<String>,
) -> (b: bool)
    requires
        k < slots@.len(),
    ensures
        b == is_candidate(slots@, k as int, weekdays@, opt_text(*last_fired)),
{
    match &slots[k] {
        None => false,
        Some(day) => {
            if !holds_weekday(weekdays, day.weekday) {
                return false;
            }
            match &day.at {
                None => false,
                Some(m) => !(k == 0 && same_text(last_fired, m.stamp())),
            }
        },
    }
}

/// Pick the day a weekly schedule fires next, among `slots` (today first).
pub fn pick_slot(
    slots: &Vec<Option<DaySlot>>,
    weekdays: &Vec<u8>,
    last_fired: &Option<String>,
    now: &Moment,
) -> (r: Option<usize>)
    ensures
        match r {
            Some(i) => pick_spec(slots@, weekdays@, opt_text(*last_fired), *now) == Some(i as int),
            None => pick_spec(slots@, weekdays@, opt_text(*last_fired), *now) is None,
        },
{
    let ghost lf = opt_text(*last_fired);
    let n = slots.len();
    let mut best: Option<usize> = None;
    let mut k: usize = 0;
    while k < n
        invariant
            n == slots@.len(),
            k <= n,
            lf == opt_text(*last_fired),
            match best {
                Some(b) => b < k && earliest(slots@, k as int, weekdays@, lf) == Some(b as int),
                None => earliest(slots@, k as int, weekdays@, lf) is None,
            },
            k > 0 ==> !(is_candidate(slots@, 0, weekdays@, lf) && not_after(
                slot_moment(slots@, 0),
                *now,
            )),
        decreases n - k,
    {
        proof {
            lemma_earliest_is_candidate(slots@, k as int, weekdays@, lf);
        }
        if candidate_at(slots, k, weekdays, last_fired) {
            let m = match &slots[k] {
                Some(day) => match &day.at {
                    Some(m) => m,
                    None => {
                        assert(false);
                        return None;
                    },
                },
                None => {
                    assert(false);
                    return None;
                },
            };
            if k == 0 && m.not_after(now) {
                return Some(0);
            }
            match best {
                None => {
                    best = Some(k);
                },
                Some(b) => {
                    let mb = match &slots[b] {
                        Some(day) => match &day.at {
                            Some(mb) => mb,
                            None => {
                                assert(false);
                                return None;
                            },
                        },
                        None => {
                            assert(false);
                            return None;
                        },
                    };
                    if m.before(mb) {
                        best = Some(k);
                    }
                },
            }
        }
        k = k + 1;
    }
    best
}

/// The 8 days a weekly schedule looks at, today first: for each, its
/// weekday, the reading of the local clock at the time of day
/// `(secs, nanos)` on it, and the local moment of that reading when the
/// local clock shows it.
pub fn day_slots(today: i64, secs: u32, nanos: u32) -> (slots: Vec<Option<DaySlot>>)
    requires
        -200_000_000 < today < 200_000_000,
        secs < 86400,
    ensures
        slots_fit(slots@, today as int, secs as int, nanos as int),
{
    let mut slots: Vec<Option<DaySlot>> = Vec::new();
    let mut k: i64 = 0;
    while k < 8
        invariant
            -200_000_000 < today < 200_000_000,
            secs < 86400,
            0 <= k <= 8,
            slots@.len() == k,
            forall|j: int|
                0 <= j < k ==> {
                    &&& (#[trigger] slots@[j]) is Some
                    &&& slots@[j]->0.weekday == weekday_of_day(today + j)
                    &&& slots@[j]->0.reading == (today + j) * 86400 + secs
                    &&& slots@[j]->0.nanos == nanos
                    &&& slots@[j]->0.at matches Some(m) ==> valid(m@) && reading(m@)
                        == slots@[j]->0.reading && m@.nanos == nanos
                },
        decreases 8 - k,
    {
        let day = today + k;
        let wd = weekday_of(day);
        let r = day * 86400 + secs as i64;
        let at = local_from_naive(r, nanos);
        slots.push(Some(DaySlot { weekday: wd, reading: r, nanos, at }));
        k = k + 1;
    }
    slots
}

/// The moment showing the bare time of day `(secs, nanos)` on the local
/// calendar day of `now`, if the local clock shows that reading.
pub fn today_at(now: &Moment, secs: u32, nanos: u32) -> (r: Option<Moment>)
    requires
        secs < 86400,
    ensures
        r matches Some(m) ==> valid(m@) && local_day(m@) == local_day(now@) && day_secs(m@)
            == secs && m@.nanos == nanos,
{
    let day = now.local_day();
    let reading = day * 86400 + secs as i64;
    let r = local_from_naive(reading, nanos);
    proof {
        let rd: int = day * 86400 + secs;
        assert(rd / 86400 == day as int && rd % 86400 == secs as int) by (nonlinear_arith)
            requires
                secs < 86400,
                rd == day * 86400 + secs,
        ;
    }
    r
}

/// Parse, with `now` the moment of reading, a full RFC 3339 date-time, a
/// bare local date-time ("2026-06-28T14:30[:00]") or a bare time of day
/// ("14:30[:00]", taken as that time on the local day of `now`) into a
/// local date-time. A bare reading that the local clock skips falls through
/// to the next form.
pub fn parse_local_at(s: &str, now: &Moment) -> (r: Option<Moment>)
    ensures
        parsed_as(s@, *now, r),
        r is Some ==> local_text_accepts(s@),
{
    if let Some(m) = parse_rfc3339_local(s) {
        return Some(m);
    }
    if let Some((reading, nanos)) = parse_naive_datetime(s, "%Y-%m-%dT%H:%M:%S") {
        if let Some(m) = local_from_naive(reading, nanos) {
            return Some(m);
        }
    }
    if let Some((reading, nanos)) = parse_naive_datetime(s, "%Y-%m-%dT%H:%M") {
        if let Some(m) = local_from_naive(reading, nanos) {
            return Some(m);
        }
    }
    if let Some((secs, nanos)) = parse_naive_time(s, "%H:%M:%S") {
        if let Some(m) = today_at(now, secs, nanos) {
            return Some(m);
        }
    }
    if let Some((secs, nanos)) = parse_naive_time(s, "%H:%M") {
        if let Some(m) = today_at(now, secs, nanos) {
            return Some(m);
        }
    }
    None
}

/// Parse the text as `parse_local_at` does, reading the local clock for the
/// day a bare time of day falls on: the result is what `parse_local_at`
/// gives at the moment the clock read.
pub fn parse_local(s: &str) -> (r: Option<Moment>)
    ensures
        exists|now: Moment| #[trigger] parsed_as(s@, now, r) && valid(now@),
        r is Some ==> local_text_accepts(s@),
{
    let now = local_now();
    let r = parse_local_at(s, &now);
    assert(parsed_as(s@, now, r) && valid(now@));
    r
}

/// The next instant this schedule fires, or `None`.
/// `Once`: its instant (the heartbeat fires once it is past, guarded by
/// `last_fired`). `Recurring`: the soonest chosen weekday at `at`'s time of
/// day, scanning today and the next 7 days.
pub fn next_fire_time(sched: &Schedule, now: &Moment) -> (r: Option<Moment>)
    ensures
        fire_time_ok(sched@, *now, r),
{
    match sched.kind {
        ScheduleKind::Off => None,
        ScheduleKind::Once => match &sched.at {
            Some(s) => {
                let r = parse_local_at(s.as_str(), now);
                assert(sched@.at == Some(s@));
                r
            },
            None => None,
        },
        ScheduleKind::Recurring => {
            let at = match &sched.at {
                Some(s) => s,
                None => {
                    return None;
                },
            };
            if sched.weekdays.len() == 0 {
                return None;
            }
            let parsed = parse_local_at(at.as_str(), now);
            let ghost p = parsed;
            assert(sched@.at == Some(at@));
            assert(parsed_as(sched@.at->0, *now, p));
            let pm = match parsed {
                Some(pm) => pm,
                None => {
                    return None;
                },
            };
            let secs = pm.day_secs();
            let nanos = pm.nanos();
            let today = now.local_day();
            let mut slots = day_slots(today, secs, nanos);
            let ghost all = slots@;
            proof {
                lemma_earliest_is_candidate(all, 8, sched@.weekdays, sched@.last_fired);
            }
            let r = match pick_slot(&slots, &sched.weekdays, &sched.last_fired, now) {
                Some(i) => {
                    let day = slots.swap_remove(i);
                    match day {
                        Some(d) => {
                            assert(all[i as int] == Some(d));
                            d.at
                        },
                        None => None,
                    }
                },
                None => None,
            };
            assert(r == picked(all, sched@.weekdays, sched@.last_fired, *now));
            assert(slots_fit(all, local_day(now@), day_secs(pm@), pm@.nanos));
            assert(parsed_as(sched@.at->0, *now, p));
            assert(p == Some(pm));
            r
        },
    }
}

/// A one-shot written in RFC 3339 fires at the instant its text names,
/// whatever the local time zone.
pub proof fn lemma_one_shot_instant(s: ScheduleView, now: Moment, r: Option<Moment>, a: Seq<char>)
    requires
        s.kind == ScheduleKind::Once,
        s.at == Some(a),
        rfc3339_instant(a) is Some,
        fire_time_ok(s, now, r),
    ensures
        r matches Some(m) && rfc3339_instant(a) == Some((m@.secs as i64, m@.nanos as u32)),
{
}

/// Today's slot of a weekly schedule, when it is a chosen weekday, has not
/// fired yet, and is already due, is the one picked.
pub proof fn lemma_due_today_is_picked(
    slots: Seq<Option<DaySlot>>,
    weekdays: Seq<u8>,
    last_fired: Option<Seq<char>>,
    now: Moment,
)
    requires
        slots.len() > 0,
        is_candidate(slots, 0, weekdays, last_fired),
        not_after(slot_moment(slots, 0), now),
    ensures
        picked(slots, weekdays, last_fired, now) == slots[0]->0.at,
{
}

/// Once today's slot has fired, it is not picked again: the next pick is a
/// later day, if any.
pub proof fn lemma_fired_today_moves_on(
    slots: Seq<Option<DaySlot>>,
    weekdays: Seq<u8>,
    now: Moment,
)
    requires
        slots.len() > 0,
        slots[0] matches Some(d) && d.at is Some,
    ensures
        pick_spec(slots, weekdays, Some(slot_moment(slots, 0)@.stamp), now) matches Some(i) ==> 0 < i
            < slots.len(),
{
    lemma_earliest_is_candidate(
        slots,
        slots.len() as int,
        weekdays,
        Some(slot_moment(slots, 0)@.stamp),
    );
}

/// The eighth day looked at falls on today's weekday: a weekly slot that
/// has fired today comes round again a week later.
pub proof fn lemma_week_later_same_weekday(today: int)
    ensures
        weekday_of_day(today + 7) == weekday_of_day(today),
{
    assert((today + 7 + 3) % 7 == (today + 3) % 7) by (nonlinear_arith);
}

/// The day a weekly schedule looks at `k` days on shows the schedule's time
/// of day on that day of the local calendar.
pub proof fn lemma_slot_is_time_of_day(slots: Seq<Option<DaySlot>>, today: int, secs: int, nanos: int, k: int)
    requires
        slots_fit(slots, today, secs, nanos),
        0 <= k < 8,
        0 <= secs < 86400,
        slots[k]->0.at is Some,
    ensures
        local_day(slot_moment(slots, k)@) == today + k,
        day_secs(slot_moment(slots, k)@) == secs,
        weekday_of_day(local_day(slot_moment(slots, k)@)) == slots[k]->0.weekday,
{
    let r = (today + k) * 86400 + secs;
    assert(r / 86400 == today + k && r % 86400 == secs) by (nonlinear_arith)
        requires
            r == (today + k) * 86400 + secs,
            0 <= secs < 86400,
    ;
}

/// Grace window: a one-shot overdue by no more than this at boot still fires.
pub const BOOT_GRACE_SECS: i64 = 300;

/// The heartbeat fires a schedule when it has a fire instant that is not
/// in the future and is not the instant it last fired for.
pub open spec fn due_now(s: ScheduleView, fire_at: Option<Moment>, now: Moment) -> bool {
    &&& s.kind != ScheduleKind::Off
    &&& fire_at is Some
    &&& not_after(fire_at->0, now)
    &&& s.last_fired != Some(fire_at->0@.stamp)
}

/// A schedule after firing for the instant `stamp`: the instant is recorded,
/// and a one-shot is spent (a weekly schedule re-arms by itself).
pub open spec fn fired_view(s: ScheduleView, stamp: Seq<char>) -> ScheduleView {
    ScheduleView {
        kind: if s.kind == ScheduleKind::Once {
            ScheduleKind::Off
        } else {
            s.kind
        },
        last_fired: Some(stamp),
        ..s
    }
}

/// At boot, a one-shot whose instant has passed fires only when it is
/// overdue by no more than the grace window.
pub open spec fn boot_fires(s: ScheduleView, fire_at: Option<Moment>, now: Moment, overdue: i64) -> bool {
    &&& s.kind == ScheduleKind::Once
    &&& fire_at is Some
    &&& not_after(fire_at->0, now)
    &&& overdue <= BOOT_GRACE_SECS
}

/// A schedule after the boot reconciliation: a one-shot whose instant has
/// passed is dropped (and marked fired when it fires now); a weekly slot
/// already past today is marked as fired so it is not fired late.
pub open spec fn booted_view(s: ScheduleView, fire_at: Option<Moment>, now: Moment, overdue: i64) -> ScheduleView {
    if fire_at is Some && not_after(fire_at->0, now) {
        match s.kind {
            ScheduleKind::Once => if overdue <= BOOT_GRACE_SECS {
                ScheduleView {
                    kind: ScheduleKind::Off,
                    last_fired: Some(fire_at->0@.stamp),
                    ..s
                }
            } else {
                ScheduleView { kind: ScheduleKind::Off, ..s }
            },
            ScheduleKind::Recurring => ScheduleView { last_fired: Some(fire_at->0@.stamp), ..s },
            ScheduleKind::Off => s,
        }
    } else {
        s
    }
}

/// A schedule set by the user: the duplicate-fire guard is cleared so the
/// (re)set time can fire.
pub open spec fn armed_view(s: ScheduleView) -> ScheduleView {
    ScheduleView { last_fired: None, ..s }
}

impl Schedule {
    /// Fire when due at `now` for the instant `fire_at`: record the instant,
    /// and spend a one-shot. Returns whether it fired.
    pub fn take_due(&mut self, fire_at: &Option<Moment>, now: &Moment) -> (fired: bool)
        ensures
            fired == due_now(old(self)@, *fire_at, *now),
            fired ==> final(self)@ == fired_view(old(self)@, fire_at->0@.stamp),
            !fired ==> final(self)@ == old(self)@,
    {
        if self.kind == ScheduleKind::Off {
            return false;
        }
        match fire_at {
            None => false,
            Some(m) => {
                if !m.not_after(now) {
                    return false;
                }
                if same_text(&self.last_fired, m.stamp()) {
                    return false;
                }
                self.last_fired = Some(m.stamp_text());
                if self.kind == ScheduleKind::Once {
                    self.kind = ScheduleKind::Off;
                }
                true
            },
        }
    }

    /// The heartbeat's schedule check at `now`. Returns whether it fired.
    pub fn heartbeat(&mut self, now: &Moment) -> (fired: bool)
        ensures
            exists|fire_at: Option<Moment>|
                {
                    &&& fire_time_ok(old(self)@, *now, fire_at)
                    &&& fired == due_now(old(self)@, fire_at, *now)
                    &&& fired ==> final(self)@ == fired_view(old(self)@, fire_at->0@.stamp)
                    &&& !fired ==> final(self)@ == old(self)@
                },
    {
        if self.kind == ScheduleKind::Off {
            let ghost f: Option<Moment> = None;
            assert(!due_now(self@, f, *now));
            return false;
        }
        let fire_at = next_fire_time(self, now);
        self.take_due(&fire_at, now)
    }

    /// Settle the schedule at boot, `overdue` seconds after `fire_at`.
    /// Returns whether it fires now.
    pub fn settle_at_boot(&mut self, fire_at: &Option<Moment>, now: &Moment, overdue: i64) -> (fires: bool)
        ensures
            fires == boot_fires(old(self)@, *fire_at, *now, overdue),
            final(self)@ == booted_view(old(self)@, *fire_at, *now, overdue),
    {
        match fire_at {
            None => false,
            Some(m) => {
                if !m.not_after(now) {
                    return false;
                }
                match self.kind {
                    ScheduleKind::Once => {
                        self.kind = ScheduleKind::Off;
                        if overdue <= BOOT_GRACE_SECS {
                            self.last_fired = Some(m.stamp_text());
                            true
                        } else {
                            false
                        }
                    },
                    ScheduleKind::Recurring => {
                        self.last_fired = Some(m.stamp_text());
                        false
                    },
                    ScheduleKind::Off => false,
                }
            },
        }
    }

    /// The boot reconciliation at `now`: honour a one-shot overdue within
    /// the grace window, drop a stale one, and suppress a weekly slot
    /// already past today. Returns whether it fires now.
    pub fn reconcile_at_boot(&mut self, now: &Moment) -> (fires: bool)
        ensures
            exists|fire_at: Option<Moment>, overdue: i64|
                {
                    &&& fire_time_ok(old(self)@, *now, fire_at)
                    &&& (fire_at matches Some(m) ==> overdue == secs_between(now@, m@))
                    &&& fires == boot_fires(old(self)@, fire_at, *now, overdue)
                    &&& final(self)@ == booted_view(old(self)@, fire_at, *now, overdue)
                },
    {
        let fire_at = next_fire_time(self, now);
        let overdue = match &fire_at {
            Some(m) => whole_secs_between(now, m),
            None => 0,
        };
        self.settle_at_boot(&fire_at, now, overdue)
    }

    /// Arm a schedule set by the user: clear the duplicate-fire guard.
    pub fn arm(&mut self)
        ensures
            final(self)@ == armed_view(old(self)@),
    {
        self.last_fired = None;
    }
}

/// The duplicate-fire guard: once a schedule has fired for an instant, it
/// does not fire again for the same instant, whenever it is checked.
pub proof fn lemma_fires_once_per_instant(
    s: ScheduleView,
    fire_at: Moment,
    again: Moment,
    now: Moment,
    later: Moment,
)
    requires
        due_now(s, Some(fire_at), now),
        again@.stamp == fire_at@.stamp,
    ensures
        !due_now(fired_view(s, fire_at@.stamp), Some(again), later),
{
}

/// One check of a schedule: a heartbeat (`heartbeat`, `take_due`) or the
/// boot reconciliation (`reconcile_at_boot`, `settle_at_boot`), with the
/// fire instant it was made for, its moment, and at boot how overdue the
/// instant was.
pub enum ScheduleStep {
    Beat { fire_at: Option<Moment>, now: Moment },
    Boot { fire_at: Option<Moment>, now: Moment, overdue: i64 },
}

/// Whether the schedule fires in the step.
pub open spec fn step_fires(s: ScheduleView, st: ScheduleStep) -> bool {
    match st {
        ScheduleStep::Beat { fire_at, now } => due_now(s, fire_at, now),
        ScheduleStep::Boot { fire_at, now, overdue } => boot_fires(s, fire_at, now, overdue),
    }
}

/// The schedule after the step.
pub open spec fn stepped(s: ScheduleView, st: ScheduleStep) -> ScheduleView {
    match st {
        ScheduleStep::Beat { fire_at, now } => if due_now(s, fire_at, now) {
            fired_view(s, fire_at->0@.stamp)
        } else {
            s
        },
        ScheduleStep::Boot { fire_at, now, overdue } => booted_view(s, fire_at, now, overdue),
    }
}

/// The schedule after the steps, one after the other.
pub open spec fn run_end(s: ScheduleView, steps: Seq<ScheduleStep>) -> ScheduleView
    decreases steps.len(),
{
    if steps.len() == 0 {
        s
    } else {
        stepped(run_end(s, steps.drop_last()), steps.last())
    }
}

/// How many of the steps fire the schedule.
pub open spec fn run_fires(s: ScheduleView, steps: Seq<ScheduleStep>) -> nat
    decreases steps.len(),
{
    if steps.len() == 0 {
        0
    } else {
        run_fires(s, steps.drop_last()) + if step_fires(run_end(s, steps.drop_last()), steps.last()) {
            1nat
        } else {
            0nat
        }
    }
}

/// The instant a step is made for, if any.
pub open spec fn step_instant(st: ScheduleStep) -> Option<Moment> {
    match st {
        ScheduleStep::Beat { fire_at, .. } => fire_at,
        ScheduleStep::Boot { fire_at, .. } => fire_at,
    }
}

/// The step is made for the instant written `stamp`, or for none.
pub open spec fn made_for(st: ScheduleStep, stamp: Seq<char>) -> bool {
    step_instant(st) matches Some(m) ==> m@.stamp == stamp
}

/// A one-shot fires at most once, whatever heartbeats and boots follow and
/// whatever instants they are made for; a schedule that is off never fires
/// and stays off.
pub proof fn lemma_one_shot_fires_at_most_once(s: ScheduleView, steps: Seq<ScheduleStep>)
    requires
        s.kind != ScheduleKind::Recurring,
    ensures
        run_fires(s, steps) <= 1,
        run_end(s, steps).kind != ScheduleKind::Recurring,
        run_fires(s, steps) == 1 ==> run_end(s, steps).kind == ScheduleKind::Off,
        s.kind == ScheduleKind::Off ==> run_fires(s, steps) == 0 && run_end(s, steps).kind
            == ScheduleKind::Off,
    decreases steps.len(),
{
    if steps.len() > 0 {
        lemma_one_shot_fires_at_most_once(s, steps.drop_last());
    }
}

/// The duplicate-fire guard over any run of heartbeats and boots made for
/// one instant (as the checks of consecutive seconds are, while the next
/// fire instant stays the same): the schedule fires for it at most once.
pub proof fn lemma_one_fire_per_instant_over_a_run(
    s: ScheduleView,
    steps: Seq<ScheduleStep>,
    stamp: Seq<char>,
)
    requires
        forall|i: int| 0 <= i < steps.len() ==> #[trigger] made_for(steps[i], stamp),
    ensures
        run_fires(s, steps) <= 1,
        run_fires(s, steps) == 1 ==> run_end(s, steps).last_fired == Some(stamp) && run_end(
            s,
            steps,
        ).kind != ScheduleKind::Once,
    decreases steps.len(),
{
    if steps.len() > 0 {
        let init = steps.drop_last();
        assert forall|i: int| 0 <= i < init.len() implies #[trigger] made_for(init[i], stamp) by {
            assert(init[i] == steps[i]);
        }
        lemma_one_fire_per_instant_over_a_run(s, init, stamp);
        assert(made_for(steps[steps.len() - 1], stamp));
    }
}

/// The step is made for the instant written `stamp`.
pub open spec fn made_for_instant(st: ScheduleStep, stamp: Seq<char>) -> bool {
    step_instant(st) matches Some(m) && m@.stamp == stamp
}

/// The step is made for an instant written otherwise than `stamp`.
pub open spec fn made_for_other(st: ScheduleStep, stamp: Seq<char>) -> bool {
    step_instant(st) matches Some(m) && m@.stamp != stamp
}

/// How many of the steps fire the schedule for the instant written `stamp`.
pub open spec fn run_fires_for(s: ScheduleView, steps: Seq<ScheduleStep>, stamp: Seq<char>) -> nat
    decreases steps.len(),
{
    if steps.len() == 0 {
        0
    } else {
        run_fires_for(s, steps.drop_last(), stamp) + if step_fires(
            run_end(s, steps.drop_last()),
            steps.last(),
        ) && made_for_instant(steps.last(), stamp) {
            1nat
        } else {
            0nat
        }
    }
}

/// The steps made for the instant written `stamp` come in one stretch: no
/// step made for another instant stands between two of them (as the
/// heartbeat's checks are, the next fire time moving on once it has
/// passed). Steps made for no instant may stand anywhere.
pub open spec fn in_one_stretch(steps: Seq<ScheduleStep>, stamp: Seq<char>) -> bool {
    forall|i: int, j: int, k: int|
        0 <= i < j < k < steps.len() && #[trigger] made_for_instant(steps[i], stamp)
            && #[trigger] made_for_instant(steps[k], stamp) ==> !#[trigger] made_for_other(
            steps[j],
            stamp,
        )
}

/// Some step made for the instant written `stamp` is followed by a step made
/// for another.
pub open spec fn moved_on(steps: Seq<ScheduleStep>, stamp: Seq<char>) -> bool {
    exists|i: int, k: int|
        0 <= i < k < steps.len() && #[trigger] made_for_instant(steps[i], stamp)
            && #[trigger] made_for_other(steps[k], stamp)
}

/// The duplicate-fire guard over any run of heartbeats and boots, for each
/// instant: as long as the checks made for it come in one stretch, the
/// schedule fires for it at most once.
pub proof fn lemma_each_instant_fires_at_most_once(
    s: ScheduleView,
    steps: Seq<ScheduleStep>,
    stamp: Seq<char>,
)
    requires
        in_one_stretch(steps, stamp),
    ensures
        run_fires_for(s, steps, stamp) <= 1,
{
    lemma_fires_for_guarded(s, steps, stamp);
}

/// After a fire for the instant, either the guard still holds it or the run
/// has moved on to another instant.
proof fn lemma_fires_for_guarded(s: ScheduleView, steps: Seq<ScheduleStep>, stamp: Seq<char>)
    requires
        in_one_stretch(steps, stamp),
    ensures
        run_fires_for(s, steps, stamp) <= 1,
        run_fires_for(s, steps, stamp) == 1 ==> {
            &&& exists|i: int| 0 <= i < steps.len() && #[trigger] made_for_instant(steps[i], stamp)
            &&& (run_end(s, steps).last_fired == Some(stamp) && run_end(s, steps).kind
                != ScheduleKind::Once) || moved_on(steps, stamp)
        },
    decreases steps.len(),
{
    if steps.len() > 0 {
        let n = steps.len() - 1;
        let init = steps.drop_last();
        let st = steps.last();
        assert(st == steps[n]);
        assert(in_one_stretch(init, stamp)) by {
            assert forall|i: int, j: int, k: int|
                0 <= i < j < k < init.len() && #[trigger] made_for_instant(init[i], stamp)
                    && #[trigger] made_for_instant(init[k], stamp) implies !#[trigger] made_for_other(
                init[j],
                stamp,
            ) by {
                assert(init[i] == steps[i] && init[j] == steps[j] && init[k] == steps[k]);
            }
        }
        lemma_fires_for_guarded(s, init, stamp);
        let before = run_end(s, init);
        if run_fires_for(s, init, stamp) == 1 {
            let i0 = choose|i: int| 0 <= i < init.len() && #[trigger] made_for_instant(init[i], stamp);
            assert(init[i0] == steps[i0]);
            assert(made_for_instant(steps[i0], stamp));
            if moved_on(init, stamp) {
                let (a, b) = choose|a: int, b: int|
                    0 <= a < b < init.len() && #[trigger] made_for_instant(init[a], stamp)
                        && #[trigger] made_for_other(init[b], stamp);
                assert(init[a] == steps[a] && init[b] == steps[b]);
                assert(made_for_instant(steps[a], stamp) && made_for_other(steps[b], stamp));
                assert(moved_on(steps, stamp));
                if made_for_instant(st, stamp) {
                    assert(!made_for_other(steps[b], stamp));
                }
            } else {
                if made_for_other(st, stamp) {
                    assert(made_for_instant(steps[i0], stamp) && made_for_other(steps[n], stamp));
                    assert(moved_on(steps, stamp));
                }
            }
        } else if step_fires(before, st) && made_for_instant(st, stamp) {
            assert(made_for_instant(steps[n], stamp));
        }
    }
}

/// A one-shot is spent by firing: it has no next fire time afterwards.
pub proof fn lemma_one_shot_is_spent(s: ScheduleView, stamp: Seq<char>)
    requires
        s.kind == ScheduleKind::Once,
    ensures
        fired_view(s, stamp).kind == ScheduleKind::Off,
{
}

/// A weekly schedule keeps its kind, weekdays, time and auto-start when it
/// fires: it re-arms by itself.
pub proof fn lemma_weekly_rearms(s: ScheduleView, stamp: Seq<char>)
    requires
        s.kind == ScheduleKind::Recurring,
    ensures
        fired_view(s, stamp).kind == ScheduleKind::Recurring,
        fired_view(s, stamp).weekdays == s.weekdays,
        fired_view(s, stamp).at == s.at,
        fired_view(s, stamp).auto_start == s.auto_start,
{
}

/// At boot no past instant is left to fire late: a one-shot whose instant
/// has passed is dropped either way, and a weekly slot already past is not
/// due for the heartbeat at that instant.
pub proof fn lemma_boot_leaves_nothing_overdue(
    s: ScheduleView,
    fire_at: Moment,
    now: Moment,
    overdue: i64,
    later: Moment,
)
    requires
        not_after(fire_at, now),
        s.kind != ScheduleKind::Off,
    ensures
        s.kind == ScheduleKind::Once ==> booted_view(s, Some(fire_at), now, overdue).kind
            == ScheduleKind::Off,
        s.kind == ScheduleKind::Recurring ==> !due_now(
            booted_view(s, Some(fire_at), now, overdue),
            Some(fire_at),
            later,
        ),
{
}

/// A schedule set by the user can fire: after arming, a fire instant that
/// has come is due.
pub proof fn lemma_armed_schedule_can_fire(s: ScheduleView, fire_at: Moment, now: Moment)
    requires
        s.kind != ScheduleKind::Off,
        not_after(fire_at, now),
    ensures
        due_now(armed_view(s), Some(fire_at), now),
{
}

/// The day a weekly schedule picks is a chosen weekday on which the time
/// exists and which has not fired yet; and unless it is today's slot that
/// is already due, no candidate day comes earlier.
pub proof fn lemma_pick_is_earliest_candidate(
    slots: Seq<Option<DaySlot>>,
    weekdays: Seq<u8>,
    last_fired: Option<Seq<char>>,
    now: Moment,
)
    ensures
        pick_spec(slots, weekdays, last_fired, now) matches Some(i) ==> {
            &&& 0 <= i < slots.len()
            &&& is_candidate(slots, i, weekdays, last_fired)
            &&& weekdays.contains(slots[i]->0.weekday)
            &&& (i == 0 && not_after(slot_moment(slots, 0), now)) || forall|j: int|
                0 <= j < slots.len() && is_candidate(slots, j, weekdays, last_fired) ==> !before(
                    slot_moment(slots, j),
                    slot_moment(slots, i),
                )
        },
{
    lemma_earliest_is_candidate(slots, slots.len() as int, weekdays, last_fired);
    lemma_earliest_is_minimal(slots, slots.len() as int, weekdays, last_fired);
}

/// No candidate among the first `n` days comes before the earliest one.
proof fn lemma_earliest_is_minimal(
    slots: Seq<Option<DaySlot>>,
    n: int,
    weekdays: Seq<u8>,
    last_fired: Option<Seq<char>>,
)
    requires
        n <= slots.len(),
    ensures
        earliest(slots, n, weekdays, last_fired) matches Some(b) ==> forall|j: int|
            0 <= j < n && is_candidate(slots, j, weekdays, last_fired) ==> !before(
                slot_moment(slots, j),
                slot_moment(slots, b),
            ),
        earliest(slots, n, weekdays, last_fired) is None ==> forall|j: int|
            0 <= j < n ==> !is_candidate(slots, j, weekdays, last_fired),
    decreases n,
{
    if n > 0 {
        lemma_earliest_is_minimal(slots, n - 1, weekdays, last_fired);
        lemma_earliest_is_candidate(slots, n - 1, weekdays, last_fired);
    }
}

} // verus!
