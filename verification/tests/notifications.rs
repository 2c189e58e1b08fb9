//! Desktop notifications.

use gh_wrapper::notification::{
    escape_markup, gvariant_string, hear, monitor_command, notification_id, notify_command,
    parse_notification_id, parse_notification_signal, Heard, Notification, NotificationSignal,
};
use gh_wrapper::process::CommandOutput;

#[test]
fn gvariant_string_escapes_quotes() {
    assert_eq!(gvariant_string(r"it's a\b"), r"'it\'s a\\b'");
}

#[test]
fn escape_markup_escapes_html() {
    assert_eq!(
        escape_markup("a < b && c > d"),
        "a &lt; b &amp;&amp; c &gt; d"
    );
}

#[test]
fn parse_notification_id_reads_reply() {
    assert_eq!(parse_notification_id("(uint32 253,)\n"), Some(253));
    assert_eq!(parse_notification_id("()"), None);
}

#[test]
fn parse_notification_signal_matches_id() {
    let prefix = "/org/freedesktop/Notifications: org.freedesktop.Notifications.";
    let parse = |line: &str| parse_notification_signal(&format!("{prefix}{line}"), 42);
    assert_eq!(
        parse("ActionInvoked (uint32 42, 'merge')"),
        Some(NotificationSignal::Action("merge".into()))
    );
    assert_eq!(
        parse("NotificationClosed (uint32 42, uint32 2)"),
        Some(NotificationSignal::Closed)
    );
    assert_eq!(parse("NotificationClosed (uint32 4242, uint32 1)"), None);
    assert_eq!(parse("ActivationToken (uint32 42, 'xyz')"), None);
    assert_eq!(
        parse_notification_signal(
            "The name org.freedesktop.Notifications is owned by :1.24",
            42
        ),
        None
    );
}

#[test]
fn notification_ids_fit_in_32_bits() {
    assert_eq!(parse_notification_id("(uint32 4294967295,)"), Some(u32::MAX));
    assert_eq!(parse_notification_id("(uint32 4294967296,)"), None);
    assert_eq!(parse_notification_id("(uint32 0,)"), Some(0));
    assert_eq!(parse_notification_id("(uint32 +7,)"), Some(7));
    assert_eq!(parse_notification_id("(uint32 007,)"), Some(7));
    assert_eq!(parse_notification_id("(uint32 -7,)"), None);
    assert_eq!(parse_notification_id("(uint32 ,)"), None);
    assert_eq!(parse_notification_id("(uint32 +,)"), None);
    assert_eq!(parse_notification_id("(uint32 1 ,)"), None);
    assert_eq!(parse_notification_id("\u{2003}(uint32 1,)\t\n"), Some(1));
}

#[test]
fn reading_numbers_agrees_with_std() {
    for s in ["0", "00", "+0", "-0", "12", "+12", "++1", "", "+", "4294967295", "4294967296",
        "99999999999999999999", "1a", " 1", "٣", "0000000000000000000007"]
    {
        let reply = format!("(uint32 {s},)");
        assert_eq!(parse_notification_id(&reply), s.parse::<u32>().ok(), "{s}");
    }
}

#[test]
fn signals_need_their_whole_form() {
    let parse = |line: &str| parse_notification_signal(line, 42);
    let prefix = "org.freedesktop.Notifications.";
    assert_eq!(parse(&format!("{prefix}ActionInvoked (uint32 42, merge)")), None);
    assert_eq!(parse(&format!("{prefix}ActionInvoked (uint32 42, 'merge'")), None);
    assert_eq!(parse(&format!("{prefix}ActionInvoked uint32 42, 'merge')")), None);
    assert_eq!(parse(&format!("{prefix}ActionInvoked (uint32 42,'merge')")), None);
    assert_eq!(parse(&format!("{prefix}ActionInvoked (42, 'merge')")), None);
    assert_eq!(parse(&format!("{prefix}ActionInvoked(uint32 42, 'merge')")), None);
    // One quote is not enough to open and close a string.
    assert_eq!(parse(&format!("{prefix}ActionInvoked (uint32 42, ')")), None);
    assert_eq!(
        parse(&format!("{prefix}ActionInvoked (uint32 42, '')")),
        Some(NotificationSignal::Action("".into()))
    );
    assert_eq!(
        parse(&format!("{prefix}ActionInvoked (uint32 42, 'a, (b)')")),
        Some(NotificationSignal::Action("a, (b)".into()))
    );
}

#[test]
fn quoted_strings_are_literal() {
    assert_eq!(gvariant_string(""), "''");
    assert_eq!(gvariant_string("plain"), "'plain'");
    assert_eq!(gvariant_string("\\'"), "'\\\\\\''");
}

#[test]
fn markup_shows_the_text() {
    assert_eq!(escape_markup("&lt;"), "&amp;lt;");
    assert_eq!(escape_markup("<b>"), "&lt;b&gt;");
    assert_eq!(escape_markup("ä\"'"), "ä\"'");
}

fn shown(actions: &[(&str, &str)]) -> Notification {
    Notification {
        summary: "CI passed".into(),
        body: "o/r: it's <b>".into(),
        icon: "emblem-success".into(),
        actions: actions.iter().map(|(k, l)| (k.to_string(), l.to_string())).collect(),
    }
}

#[test]
fn notifications_are_sent_over_the_bus() {
    let c = notify_command(&shown(&[("merge", "Merge"), ("open", "Open")]));
    assert_eq!(c.program, "gdbus");
    assert_eq!(
        c.args,
        [
            "call",
            "--session",
            "--dest",
            "org.freedesktop.Notifications",
            "--object-path",
            "/org/freedesktop/Notifications",
            "--method",
            "org.freedesktop.Notifications.Notify",
            "'gh_wrapper'",
            "0",
            "'emblem-success'",
            "'CI passed'",
            r"'o/r: it\'s &lt;b&gt;'",
            "['merge', 'Merge', 'open', 'Open']",
            "{'urgency': <byte 2>}",
            "0",
        ]
    );
    let c = notify_command(&shown(&[]));
    assert_eq!(c.args[13], "[]");
}

#[test]
fn the_monitor_listens_to_notifications() {
    let c = monitor_command();
    assert_eq!(c.program, "gdbus");
    assert_eq!(
        c.args,
        [
            "monitor",
            "--session",
            "--dest",
            "org.freedesktop.Notifications",
            "--object-path",
            "/org/freedesktop/Notifications",
        ]
    );
}

fn output(success: bool, stdout: &[u8], stderr: &[u8]) -> Result<CommandOutput, String> {
    Ok(CommandOutput {
        success,
        stdout: stdout.to_vec(),
        stderr: stderr.to_vec(),
    })
}

#[test]
fn the_reply_names_the_notification() {
    assert_eq!(notification_id(output(true, b"(uint32 42,)\n", b"")), Ok(42));
    assert_eq!(
        notification_id(output(true, b" what? \xff\n", b"")),
        Err("unexpected gdbus reply: what? \u{fffd}".to_string())
    );
    assert_eq!(
        notification_id(output(false, b"(uint32 42,)\n", b"\n Error: no bus\xfe \n")),
        Err("Error: no bus\u{fffd}".to_string())
    );
    assert_eq!(
        notification_id(Err("No such file".to_string())),
        Err("failed to run gdbus: No such file".to_string())
    );
}

#[test]
fn a_click_or_the_end_is_heard() {
    let line = |s: &str| format!("/org/freedesktop/Notifications: org.freedesktop.Notifications.{s}");
    let click = line("ActionInvoked (uint32 7, 'open')");
    assert_eq!(hear(Some(&click), 7), Heard::Over(Some("open".to_string())));
    assert_eq!(hear(Some(&click), 8), Heard::Nothing);
    let closed = line("NotificationClosed (uint32 7, uint32 2)");
    assert_eq!(hear(Some(&closed), 7), Heard::Over(None));
    assert_eq!(hear(Some("noise"), 7), Heard::Nothing);
    assert_eq!(hear(None, 7), Heard::Over(None));
}

/// Listens to what the monitor printed, the first line not counted.
fn listen(printed: &[String], id: u32) -> Option<String> {
    let mut lines = printed.iter().skip(1);
    loop {
        if let Heard::Over(key) = hear(lines.next().map(String::as_str), id) {
            return key;
        }
    }
}

#[test]
fn the_first_signal_decides() {
    let line = |s: &str| format!("/org/freedesktop/Notifications: org.freedesktop.Notifications.{s}");
    let merge = || line("ActionInvoked (uint32 7, 'merge')");
    let open = || line("ActionInvoked (uint32 7, 'open')");
    let closed = || line("NotificationClosed (uint32 7, uint32 2)");
    let other = || line("NotificationClosed (uint32 8, uint32 2)");
    let noise = || "The name is owned by :1.24".to_string();
    assert_eq!(
        listen(&[noise(), noise(), other(), merge(), open(), closed()], 7),
        Some("merge".to_string())
    );
    assert_eq!(listen(&[noise(), closed(), merge()], 7), None);
    // The line that is printed on subscription is no answer.
    assert_eq!(listen(&[merge(), open()], 7), Some("open".to_string()));
    assert_eq!(listen(&[merge()], 7), None);
    assert_eq!(listen(&[noise(), other(), noise()], 7), None);
    assert_eq!(listen(&[], 7), None);
}
