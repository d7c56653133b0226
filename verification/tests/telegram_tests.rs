use sticky_timer::telegram::{
    api_error, esc, format_message, format_schedule_fired, format_task_scheduled,
    format_test_message, format_timer_done, send_message_url, telegram_target,
};

#[test]
fn templates_render_expected_copy() {
    let done = format_timer_done("Write report", "Q3 summary");
    assert_eq!(
        done,
        "<b>⏰ Timer finished</b>\nWrite report\n\nQ3 summary\n\n<i>Open Notch to reset, restart, or mark done.</i>"
    );

    let auto = format_schedule_fired("Standup", "", true);
    assert_eq!(
        auto,
        "<b>📌 Task due now</b>\nStandup\n\n<i>Timer started automatically.</i>"
    );
    let manual = format_schedule_fired("Standup", "", false);
    assert_eq!(
        manual,
        "<b>📌 Task due now</b>\nStandup\n\n<i>Open Notch to start or snooze.</i>"
    );

    let sched = format_task_scheduled("Call Bob", "ring twice", "Tue 30 Jun, 14:30");
    assert_eq!(
        sched,
        "<b>🗓 Task scheduled</b>\nCall Bob\n\nring twice\n\n<i>Due: Tue 30 Jun, 14:30</i>"
    );

    let test = format_test_message();
    assert_eq!(
        test,
        "<b>✅ Notch connected</b>\nTelegram alerts are ready.\n\n<i>You will receive scheduled task and timer alerts here.</i>"
    );
}

#[test]
fn html_special_chars_are_escaped() {
    let msg = format_timer_done("a<b>&c", "x > y & z < w");
    assert_eq!(
        msg,
        "<b>⏰ Timer finished</b>\na&lt;b&gt;&amp;c\n\nx &gt; y &amp; z &lt; w\n\n<i>Open Notch to reset, restart, or mark done.</i>"
    );
}

#[test]
fn empty_title_falls_back() {
    let msg = format_task_scheduled("", "", "now");
    assert_eq!(msg, "<b>🗓 Task scheduled</b>\nUntitled task\n\n<i>Due: now</i>");
}

#[test]
fn esc_replaces_only_the_three_special_characters() {
    assert_eq!(esc("a&b<c>d"), "a&amp;b&lt;c&gt;d");
    assert_eq!(esc("plain text é ✓"), "plain text é ✓");
    assert_eq!(esc(""), "");
    assert_eq!(esc("&amp;"), "&amp;amp;");
}

#[test]
fn escaped_output_never_holds_angle_brackets() {
    let out = esc("<script>alert('x')</script> & <b>");
    assert!(!out.contains('<'));
    assert!(!out.contains('>'));
}

#[test]
fn message_trims_title_and_description() {
    let msg = format_message("P", "  Title \t", "\n body  \n", None);
    assert_eq!(msg, "<b>P</b>\nTitle\n\nbody");
}

#[test]
fn blank_title_and_whitespace_description_are_dropped() {
    let msg = format_message("P", " \u{3000} ", "   ", Some("hint"));
    assert_eq!(msg, "<b>P</b>\nUntitled task\n\n<i>hint</i>");
}

#[test]
fn prefix_and_hint_are_escaped_too() {
    let msg = format_message("a<b", "t", "", Some("x&y"));
    assert_eq!(msg, "<b>a&lt;b</b>\nt\n\n<i>x&amp;y</i>");
}

#[test]
fn telegram_target_needs_enabled_token_and_chat() {
    assert_eq!(
        telegram_target(true, Some("tok".to_string()), Some("42".to_string())),
        Some(("tok".to_string(), "42".to_string()))
    );
    assert_eq!(telegram_target(false, Some("tok".to_string()), Some("42".to_string())), None);
    assert_eq!(telegram_target(true, None, Some("42".to_string())), None);
    assert_eq!(telegram_target(true, Some("tok".to_string()), None), None);
}

#[test]
fn bot_api_url_and_error_text() {
    assert_eq!(send_message_url("123:ABC"), "https://api.telegram.org/bot123:ABC/sendMessage");
    assert_eq!(api_error("404 Not Found", "{}"), "Telegram API 404 Not Found: {}");
}

#[test]
fn unescaping_gives_the_text_back() {
    for s in ["a<b>&c", "&amp;", "<<&>>", "plain text", "", "Tom & Jerry <3", "&lt;"] {
        let e = esc(s);
        assert!(!e.contains('<') && !e.contains('>'));
        let back = e.replace("&lt;", "<").replace("&gt;", ">").replace("&amp;", "&");
        assert_eq!(back, s);
    }
    assert_eq!(esc("a<b>&c"), "a&lt;b&gt;&amp;c");
    assert_eq!(esc("&amp;"), "&amp;amp;");
}
