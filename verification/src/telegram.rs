//! Telegram push messages: HTML-escaped, event-specific templates for
//! `parse_mode=HTML`, and the pieces of a Bot API request.
//!
//! Sending is best-effort and done by the shell; this module decides what
//! is sent and where.

use crate::text::{is_blank, is_blank_str, owned, push_char, trim, trim_str};
use vstd::prelude::*;

verus! {

/// The entity that stands for one character in Telegram HTML: only `&`, `<`
/// and `>` are replaced.
pub open spec fn esc_char(c: char) -> Seq<char> {
    if c == '&' {
        seq!['&', 'a', 'm', 'p', ';']
    } else if c == '<' {
        seq!['&', 'l', 't', ';']
    } else if c == '>' {
        seq!['&', 'g', 't', ';']
    } else {
        seq![c]
    }
}

/// `s` with every `&`, `<` and `>` replaced by its entity.
pub open spec fn escaped(s: Seq<char>) -> Seq<char>
    decreases s.len(),
{
    if s.len() == 0 {
        Seq::empty()
    } else {
        escaped(s.drop_last()) + esc_char(s.last())
    }
}

/// The heading line: the trimmed title, or a placeholder for a blank one.
pub open spec fn heading(title: Seq<char>) -> Seq<char> {
    if is_blank(title) {
        "Untitled task"@
    } else {
        trim(title)
    }
}

/// A message: the bold prefix, the heading, the trimmed description when it
/// is not blank, and the italic hint when there is one; every piece of text
/// escaped.
pub open spec fn message_text(
    prefix: Seq<char>,
    title: Seq<char>,
    content: Seq<char>,
    extra: Option<Seq<char>>,
) -> Seq<char> {
    let desc = trim(content);
    "<b>"@ + escaped(prefix) + "</b>\n"@ + escaped(heading(title)) + (if desc.len() > 0 {
        "\n\n"@ + escaped(desc)
    } else {
        Seq::empty()
    }) + match extra {
        Some(e) => "\n\n<i>"@ + escaped(e) + "</i>"@,
        None => Seq::empty(),
    }
}

/// The message sent when a countdown reaches zero.
pub open spec fn timer_done_text(title: Seq<char>, content: Seq<char>) -> Seq<char> {
    message_text(
        "⏰ Timer finished"@,
        title,
        content,
        Some("Open Notch to reset, restart, or mark done."@),
    )
}

/// The hint of a fired schedule: whether the timer started by itself.
pub open spec fn fired_hint(auto_start: bool) -> Seq<char> {
    if auto_start {
        "Timer started automatically."@
    } else {
        "Open Notch to start or snooze."@
    }
}

/// The message sent when a schedule fires.
pub open spec fn schedule_fired_text(
    title: Seq<char>,
    content: Seq<char>,
    auto_start: bool,
) -> Seq<char> {
    message_text("📌 Task due now"@, title, content, Some(fired_hint(auto_start)))
}

/// The message sent when a future schedule is set; `due` is preformatted.
pub open spec fn task_scheduled_text(
    title: Seq<char>,
    content: Seq<char>,
    due: Seq<char>,
) -> Seq<char> {
    message_text("🗓 Task scheduled"@, title, content, Some("Due: "@ + due))
}

/// The probe sent from the settings' "Send test".
pub open spec fn test_message_text() -> Seq<char> {
    message_text(
        "✅ Notch connected"@,
        "Telegram alerts are ready."@,
        ""@,
        Some("You will receive scheduled task and timer alerts here."@),
    )
}

/// Minimal HTML escape for Telegram `parse_mode=HTML` (only `&`, `<`, `>`).
pub fn esc(s: &str) -> (r: String)
    ensures
        r@ == escaped(s@),
{
    let n = s.unicode_len();
    let mut out = String::new();
    let mut i: usize = 0;
    proof {
        reveal_strlit("&amp;");
        reveal_strlit("&lt;");
        reveal_strlit("&gt;");
    }
    while i < n
        invariant
            n == s@.len(),
            i <= n,
            out@ == escaped(s@.subrange(0, i as int)),
            "&amp;"@ == seq!['&', 'a', 'm', 'p', ';'],
            "&lt;"@ == seq!['&', 'l', 't', ';'],
            "&gt;"@ == seq!['&', 'g', 't', ';'],
        decreases n - i,
    {
        let c = s.get_char(i);
        assert(s@.subrange(0, i + 1).drop_last() =~= s@.subrange(0, i as int));
        if c == '&' {
            out.append("&amp;");
        } else if c == '<' {
            out.append("&lt;");
        } else if c == '>' {
            out.append("&gt;");
        } else {
            push_char(&mut out, c);
        }
        assert(out@ =~= escaped(s@.subrange(0, i + 1)));
        i = i + 1;
    }
    assert(s@.subrange(0, n as int) =~= s@);
    out
}

/// Build a message body: bold prefix line, the task title (or a placeholder
/// when it is blank), the description when there is one, and an optional
/// italic hint.
pub fn format_message(prefix: &str, title: &str, content: &str, extra: Option<&str>) -> (r: String)
    ensures
        r@ == message_text(
            prefix@,
            title@,
            content@,
            match extra {
                Some(e) => Some(e@),
                None => None,
            },
        ),
{
    let head: &str = if is_blank_str(title) {
        "Untitled task"
    } else {
        trim_str(title)
    };
    let mut msg = String::new();
    msg.append("<b>");
    let p = esc(prefix);
    msg.append(p.as_str());
    msg.append("</b>\n");
    let h = esc(head);
    msg.append(h.as_str());
    let desc = trim_str(content);
    let ghost before_desc = msg@;
    if desc.unicode_len() > 0 {
        msg.append("\n\n");
        let d = esc(desc);
        msg.append(d.as_str());
    }
    let ghost before_extra = msg@;
    match extra {
        Some(x) => {
            msg.append("\n\n<i>");
            let e = esc(x);
            msg.append(e.as_str());
            msg.append("</i>");
        },
        None => {},
    }
    let ghost ex = match extra {
        Some(e) => Some(e@),
        None => None,
    };
    assert(msg@ =~= message_text(prefix@, title@, content@, ex));
    msg
}

/// Escaped text holds no `<` and no `>`: whatever a title or description
/// contains, it cannot open or close a tag in the message.
pub proof fn lemma_escaped_has_no_tags(s: Seq<char>)
    ensures
        forall|i: int| 0 <= i < escaped(s).len() ==> escaped(s)[i] != '<' && escaped(s)[i] != '>',
    decreases s.len(),
{
    if s.len() > 0 {
        lemma_escaped_has_no_tags(s.drop_last());
        let a = escaped(s.drop_last());
        let b = esc_char(s.last());
        assert forall|i: int| 0 <= i < escaped(s).len() implies escaped(s)[i] != '<' && escaped(
            s,
        )[i] != '>' by {
            if i >= a.len() {
                assert(escaped(s)[i] == b[i - a.len()]);
            } else {
                assert(escaped(s)[i] == a[i]);
            }
        }
    }
}

/// Text without `&`, `<` and `>` is sent as it is.
pub proof fn lemma_plain_text_unchanged(s: Seq<char>)
    requires
        forall|i: int| 0 <= i < s.len() ==> s[i] != '&' && s[i] != '<' && s[i] != '>',
    ensures
        escaped(s) == s,
    decreases s.len(),
{
    if s.len() > 0 {
        lemma_plain_text_unchanged(s.drop_last());
        assert(escaped(s) =~= s);
    }
}

/// Escaping keeps the text apart from the pieces that are concatenated:
/// escaping two texts one after the other is escaping their concatenation.
pub proof fn lemma_escaped_concat(a: Seq<char>, b: Seq<char>)
    ensures
        escaped(a + b) == escaped(a) + escaped(b),
    decreases b.len(),
{
    if b.len() == 0 {
        assert(a + b =~= a);
        assert(escaped(a) + escaped(b) =~= escaped(a));
    } else {
        lemma_escaped_concat(a, b.drop_last());
        assert((a + b).drop_last() =~= a + b.drop_last());
        assert((a + b).last() == b.last());
        assert(escaped(a + b) =~= escaped(a) + escaped(b));
    }
}

/// HTML decoding of the three entities that escaping writes, read from the
/// front: `&amp;`, `&lt;` and `&gt;` become `&`, `<` and `>`; every other
/// character stays.
pub open spec fn unescaped(t: Seq<char>) -> Seq<char>
    decreases t.len(),
{
    if t.len() == 0 {
        Seq::empty()
    } else if t.len() >= 5 && t.subrange(0, 5) == seq!['&', 'a', 'm', 'p', ';'] {
        seq!['&'] + unescaped(t.skip(5))
    } else if t.len() >= 4 && t.subrange(0, 4) == seq!['&', 'l', 't', ';'] {
        seq!['<'] + unescaped(t.skip(4))
    } else if t.len() >= 4 && t.subrange(0, 4) == seq!['&', 'g', 't', ';'] {
        seq!['>'] + unescaped(t.skip(4))
    } else {
        seq![t[0]] + unescaped(t.skip(1))
    }
}

/// HTML-decoding what was escaped gives the text back: nothing of a title
/// or a description is lost or changed on its way into a message.
pub proof fn lemma_unescape_undoes_escape(s: Seq<char>)
    ensures
        unescaped(escaped(s)) == s,
    decreases s.len(),
{
    if s.len() > 0 {
        let c = s[0];
        let rest = s.skip(1);
        assert(s =~= seq![c] + rest);
        lemma_escaped_concat(seq![c], rest);
        assert(seq![c].drop_last() =~= Seq::<char>::empty());
        assert(escaped(Seq::<char>::empty()) == Seq::<char>::empty());
        assert(seq![c].last() == c);
        assert(escaped(seq![c]) =~= Seq::<char>::empty() + esc_char(c));
        assert(escaped(seq![c]) =~= esc_char(c));
        let t = escaped(s);
        assert(t == esc_char(c) + escaped(rest));
        let e = esc_char(c);
        lemma_unescape_undoes_escape(rest);
        assert(t.subrange(0, e.len() as int) =~= e);
        assert(t.skip(e.len() as int) =~= escaped(rest));
        if c == '&' {
            assert(unescaped(t) == seq!['&'] + unescaped(t.skip(5)));
        } else if c == '<' {
            assert(t.subrange(0, 4) =~= seq!['&', 'l', 't', ';']);
            assert(unescaped(t) == seq!['<'] + unescaped(t.skip(4)));
        } else if c == '>' {
            assert(t.subrange(0, 4) =~= seq!['&', 'g', 't', ';']);
            assert(unescaped(t) == seq!['>'] + unescaped(t.skip(4)));
        } else {
            assert(t[0] == c);
            assert(t.len() >= 5 ==> t.subrange(0, 5)[0] == c);
            assert(t.len() >= 4 ==> t.subrange(0, 4)[0] == c);
            assert(unescaped(t) == seq![c] + unescaped(t.skip(1)));
        }
        assert(unescaped(t) =~= s);
    }
}

/// The description is in the message whenever it is not blank, whatever
/// the title: right after the heading, trimmed and escaped, before the hint.
pub proof fn lemma_description_whatever_the_title(
    prefix: Seq<char>,
    title: Seq<char>,
    content: Seq<char>,
    extra: Option<Seq<char>>,
)
    requires
        trim(content).len() > 0,
    ensures
        message_text(prefix, title, content, extra) == "<b>"@ + escaped(prefix) + "</b>\n"@
            + escaped(heading(title)) + "\n\n"@ + escaped(trim(content)) + (match extra {
            Some(e) => "\n\n<i>"@ + escaped(e) + "</i>"@,
            None => Seq::empty(),
        }),
{
    assert(message_text(prefix, title, content, extra) =~= "<b>"@ + escaped(prefix) + "</b>\n"@
        + escaped(heading(title)) + "\n\n"@ + escaped(trim(content)) + (match extra {
        Some(e) => "\n\n<i>"@ + escaped(e) + "</i>"@,
        None => Seq::empty(),
    }));
}

/// A blank description leaves nothing between the heading and the hint.
pub proof fn lemma_blank_description_is_left_out(
    prefix: Seq<char>,
    title: Seq<char>,
    content: Seq<char>,
    extra: Option<Seq<char>>,
)
    requires
        trim(content).len() == 0,
    ensures
        message_text(prefix, title, content, extra) == "<b>"@ + escaped(prefix) + "</b>\n"@
            + escaped(heading(title)) + (match extra {
            Some(e) => "\n\n<i>"@ + escaped(e) + "</i>"@,
            None => Seq::empty(),
        }),
{
    assert(message_text(prefix, title, content, extra) =~= "<b>"@ + escaped(prefix) + "</b>\n"@
        + escaped(heading(title)) + (match extra {
        Some(e) => "\n\n<i>"@ + escaped(e) + "</i>"@,
        None => Seq::empty(),
    }));
}

/// The title changes only the heading: two messages that differ in their
/// title alone are the same after their headings.
pub proof fn lemma_title_changes_only_the_heading(
    prefix: Seq<char>,
    t1: Seq<char>,
    t2: Seq<char>,
    content: Seq<char>,
    extra: Option<Seq<char>>,
)
    ensures
        ({
            let h1 = "<b>"@ + escaped(prefix) + "</b>\n"@ + escaped(heading(t1));
            let h2 = "<b>"@ + escaped(prefix) + "</b>\n"@ + escaped(heading(t2));
            &&& message_text(prefix, t1, content, extra).take(h1.len() as int) == h1
            &&& message_text(prefix, t2, content, extra).take(h2.len() as int) == h2
            &&& message_text(prefix, t1, content, extra).skip(h1.len() as int) == message_text(
                prefix,
                t2,
                content,
                extra,
            ).skip(h2.len() as int)
        }),
{
    let h1 = "<b>"@ + escaped(prefix) + "</b>\n"@ + escaped(heading(t1));
    let h2 = "<b>"@ + escaped(prefix) + "</b>\n"@ + escaped(heading(t2));
    let desc = trim(content);
    let rest = (if desc.len() > 0 {
        "\n\n"@ + escaped(desc)
    } else {
        Seq::empty()
    }) + match extra {
        Some(e) => "\n\n<i>"@ + escaped(e) + "</i>"@,
        None => Seq::empty(),
    };
    assert(message_text(prefix, t1, content, extra) =~= h1 + rest);
    assert(message_text(prefix, t2, content, extra) =~= h2 + rest);
    assert((h1 + rest).take(h1.len() as int) =~= h1);
    assert((h2 + rest).take(h2.len() as int) =~= h2);
    assert((h1 + rest).skip(h1.len() as int) =~= rest);
    assert((h2 + rest).skip(h2.len() as int) =~= rest);
}

/// A message with a hint is the message without it, followed by the
/// italic hint: the two fired-schedule messages differ only in their hint.
pub proof fn lemma_hint_comes_last(
    prefix: Seq<char>,
    title: Seq<char>,
    content: Seq<char>,
    hint: Seq<char>,
)
    ensures
        message_text(prefix, title, content, Some(hint)) == message_text(
            prefix,
            title,
            content,
            None,
        ) + ("\n\n<i>"@ + escaped(hint) + "</i>"@),
        forall|b: bool|
            #![trigger schedule_fired_text(title, content, b)]
            schedule_fired_text(title, content, b) == message_text(
                "📌 Task due now"@,
                title,
                content,
                None,
            ) + ("\n\n<i>"@ + escaped(fired_hint(b)) + "</i>"@),
{
    assert(message_text(prefix, title, content, Some(hint)) =~= message_text(
        prefix,
        title,
        content,
        None,
    ) + ("\n\n<i>"@ + escaped(hint) + "</i>"@));
    assert forall|b: bool| #![trigger schedule_fired_text(title, content, b)]
        schedule_fired_text(title, content, b) == message_text(
            "📌 Task due now"@,
            title,
            content,
            None,
        ) + ("\n\n<i>"@ + escaped(fired_hint(b)) + "</i>"@) by {
        assert(message_text("📌 Task due now"@, title, content, Some(fired_hint(b))) =~= message_text(
            "📌 Task due now"@,
            title,
            content,
            None,
        ) + ("\n\n<i>"@ + escaped(fired_hint(b)) + "</i>"@));
    }
}

/// Countdown reached zero.
pub fn format_timer_done(title: &str, content: &str) -> (r: String)
    ensures
        r@ == timer_done_text(title@, content@),
{
    format_message(
        "⏰ Timer finished",
        title,
        content,
        Some("Open Notch to reset, restart, or mark done."),
    )
}

/// A schedule fired. The hint differs by whether the timer auto-started.
pub fn format_schedule_fired(title: &str, content: &str, auto_start: bool) -> (r: String)
    ensures
        r@ == schedule_fired_text(title@, content@, auto_start),
{
    let hint = if auto_start {
        "Timer started automatically."
    } else {
        "Open Notch to start or snooze."
    };
    format_message("📌 Task due now", title, content, Some(hint))
}

/// A future schedule was set or updated. `due` is a preformatted local time.
pub fn format_task_scheduled(title: &str, content: &str, due: &str) -> (r: String)
    ensures
        r@ == task_scheduled_text(title@, content@, due@),
{
    let mut extra = String::new();
    extra.append("Due: ");
    extra.append(due);
    format_message("🗓 Task scheduled", title, content, Some(extra.as_str()))
}

/// The settings' "Send test" probe.
pub fn format_test_message() -> (r: String)
    ensures
        r@ == test_message_text(),
{
    format_message(
        "✅ Notch connected",
        "Telegram alerts are ready.",
        "",
        Some("You will receive scheduled task and timer alerts here."),
    )
}

/// Where Telegram alerts go: a bot token and a chat id, present only when
/// alerts are enabled and both are set.
pub fn telegram_target(enabled: bool, token: Option<String>, chat_id: Option<String>) -> (r: Option<
    (String, String),
>)
    ensures
        match r {
            Some((t, c)) => enabled && token == Some(t) && chat_id == Some(c),
            None => !enabled || token is None || chat_id is None,
        },
{
    if !enabled {
        return None;
    }
    match (token, chat_id) {
        (Some(t), Some(c)) => Some((t, c)),
        _ => None,
    }
}

/// The Bot API endpoint that sends a message with the token.
pub open spec fn send_message_url_text(token: Seq<char>) -> Seq<char> {
    "https://api.telegram.org/bot"@ + token + "/sendMessage"@
}

/// The Bot API endpoint that sends a message with the token.
pub fn send_message_url(token: &str) -> (r: String)
    ensures
        r@ == send_message_url_text(token@),
{
    let mut url = owned("https://api.telegram.org/bot");
    url.append(token);
    url.append("/sendMessage");
    url
}

/// The error reported when the Bot API answers with a failure status.
pub open spec fn api_error_text(status: Seq<char>, body: Seq<char>) -> Seq<char> {
    "Telegram API "@ + status + ": "@ + body
}

/// The error reported when the Bot API answers with a failure status.
pub fn api_error(status: &str, body: &str) -> (r: String)
    ensures
        r@ == api_error_text(status@, body@),
{
    let mut e = owned("Telegram API ");
    e.append(status);
    e.append(": ");
    e.append(body);
    e
}

} // verus!
