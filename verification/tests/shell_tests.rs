use sticky_timer::heartbeat::{
    alert_title, done_alert_body, fire_alert_body, fire_follow_up, Cadence, FireFollowUp,
};
use sticky_timer::settings::nonblank;
use sticky_timer::shell::{
    hides_on_close, keeps_running_on_exit, main_window_label, tray_action, TrayAction,
};
use sticky_timer::text::{is_blank_str, same_chars, trim_str};

#[test]
fn tray_entries_map_to_actions() {
    assert_eq!(tray_action("new"), TrayAction::NewTask);
    assert_eq!(tray_action("show_all"), TrayAction::ShowWindow);
    assert_eq!(tray_action("settings"), TrayAction::OpenSettings);
    assert_eq!(tray_action("quit"), TrayAction::Quit);
    assert_eq!(tray_action("other"), TrayAction::Ignore);
}

#[test]
fn only_the_main_window_hides_on_close() {
    assert_eq!(main_window_label(), "main");
    assert!(hides_on_close("main"));
    assert!(!hides_on_close("settings"));
    assert!(keeps_running_on_exit(None));
    assert!(!keeps_running_on_exit(Some(0)));
}

#[test]
fn alerts_fall_back_to_the_app_name() {
    assert_eq!(alert_title(""), "Notch");
    assert_eq!(alert_title("Standup"), "Standup");
    assert_eq!(fire_alert_body(true), "Timer started.");
    assert_eq!(fire_alert_body(false), "Tap the note to start the timer.");
    assert_eq!(done_alert_body(), "Timer finished.");
}

#[test]
fn persistence_cadence() {
    let mut c = Cadence::new();
    for _ in 0..4 {
        assert!(!c.note_beat(false, false, true));
    }
    assert!(c.note_beat(false, false, true));
    assert_eq!(c.ticks_since_persist, 0);
    assert!(c.note_beat(true, false, false));
    assert!(c.note_beat(false, true, false));
    assert!(!c.note_beat(false, false, false));
    assert_eq!(c.ticks_since_persist, 1);
}

#[test]
fn blank_settings_count_as_unset() {
    assert_eq!(nonblank(Some("  ".to_string())), None);
    assert_eq!(nonblank(Some("".to_string())), None);
    assert_eq!(nonblank(None), None);
    assert_eq!(nonblank(Some(" tok ".to_string())), Some(" tok ".to_string()));
}

#[test]
fn unicode_whitespace_is_trimmed() {
    assert_eq!(trim_str("\u{a0}\t x y \u{2003}\n"), "x y");
    assert_eq!(trim_str("   "), "");
    assert!(is_blank_str("\u{3000}"));
    assert!(!is_blank_str("a"));
    assert!(same_chars("é", "é"));
    assert!(!same_chars("a", "ab"));
}

#[test]
fn fired_schedule_follow_up() {
    assert_eq!(fire_follow_up(true), FireFollowUp::StartTimer);
    assert_eq!(fire_follow_up(false), FireFollowUp::OfferStart);
}

#[test]
fn running_timers_are_written_within_five_beats() {
    for quiet in 0..5 {
        let mut c = Cadence::new();
        for _ in 0..quiet {
            c.note_beat(false, false, false);
        }
        let written = (0..5).filter(|_| c.note_beat(false, false, true)).count();
        assert!(written >= 1);
    }
}
