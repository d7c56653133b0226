# Sticky Timer

Desktop sticky notes for Linux: each note is a task with a countdown or
stopwatch timer and an optional schedule (one instant, or a time of day on
chosen weekdays). When a schedule comes due the app notifies and, if asked,
starts the timer. Alerts can also be pushed to Telegram.

## Layout

- `src/` — the library, verified with Verus:
  - `timer.rs`: the timer state machine (start/resume, pause, reset,
    configure, the once-a-second advance, boot suspension) and its laws.
  - `schedule.rs`: schedules, parsing of the accepted time texts, the next
    fire instant, the heartbeat's fire rule with its duplicate-fire guard, and
    the boot reconciliation.
  - `store.rs`: the task store behind every command, one heartbeat over all
    tasks, and the store laws (what is saved is what is read back).
  - `heartbeat.rs`: what a beat reports and when the store is written back.
  - `telegram.rs`: HTML-escaped message templates and Bot API pieces.
  - `task.rs`, `settings.rs`, `shell.rs`, `text.rs`: tasks, setting
    clean-up, tray and window decisions, and Unicode text helpers.
  - `clock.rs`, `wall.rs`: the monotonic and local wall clocks (`std::time`
    and `chrono`) behind small trusted wrappers.
- `tests/` — runtime tests of the library.
- `app/` — the Tauri shell: windows, tray, persistence, notifications, the
  heartbeat loop and the Telegram transport.
