//! Desktop notifications through the freedesktop D-Bus API, as `gdbus` takes and prints them.

use vstd::prelude::*;
use vstd::string::*;

use crate::number;
use crate::process;
use crate::process::{Command, CommandOutput};
use crate::text;

verus! {

// ---------------------------------------------------------------------------
// Escaping
// ---------------------------------------------------------------------------

/// What `f` makes of each character of `s`, one after the other.
pub open spec fn each(s: Seq<char>, f: spec_fn(char) -> Seq<char>) -> Seq<char>
    decreases s.len(),
{
    if s.len() == 0 {
        seq![]
    } else {
        each(s.drop_last(), f) + f(s.last())
    }
}

/// A character inside a quoted GVariant string.
pub open spec fn gvariant_char() -> spec_fn(char) -> Seq<char> {
    |c: char|
        if c == '\\' {
            seq!['\\', '\\']
        } else if c == '\'' {
            seq!['\\', '\'']
        } else {
            seq![c]
        }
}

/// `s` as a quoted GVariant string.
pub open spec fn gvariant(s: Seq<char>) -> Seq<char> {
    seq!['\''] + each(s, gvariant_char()) + seq!['\'']
}

/// A character inside markup.
pub open spec fn markup_char() -> spec_fn(char) -> Seq<char> {
    |c: char|
        if c == '&' {
            "&amp;"@
        } else if c == '<' {
            "&lt;"@
        } else if c == '>' {
            "&gt;"@
        } else {
            seq![c]
        }
}

/// `s` as markup that shows it.
pub open spec fn markup(s: Seq<char>) -> Seq<char> {
    each(s, markup_char())
}

/// gdbus parses each argument as GVariant text, so strings are quoted to be taken literally.
pub fn gvariant_string(s: &str) -> (r: String)
    ensures
        r@ == gvariant(s@),
{
    let chars = text::to_chars(s);
    let mut r = String::new();
    r.push('\'');
    assert(r@ =~= seq!['\''] + each(s@.take(0), gvariant_char()));
    for i in 0..chars.len()
        invariant
            chars@ == s@,
            r@ == seq!['\''] + each(s@.take(i as int), gvariant_char()),
    {
        let ghost before = r@;
        if chars[i] == '\\' || chars[i] == '\'' {
            r.push('\\');
        }
        r.push(chars[i]);
        assert(s@.take(i + 1).drop_last() =~= s@.take(i as int));
        assert(r@ =~= before + gvariant_char()(s@[i as int]));
        assert(r@ =~= seq!['\''] + each(s@.take(i + 1), gvariant_char()));
    }
    assert(s@.take(s@.len() as int) =~= s@);
    r.push('\'');
    assert(r@ =~= gvariant(s@));
    r
}

/// Notification bodies may contain HTML-like markup.
pub fn escape_markup(s: &str) -> (r: String)
    ensures
        r@ == markup(s@),
{
    let chars = text::to_chars(s);
    let mut r = String::new();
    for i in 0..chars.len()
        invariant
            chars@ == s@,
            r@ == each(s@.take(i as int), markup_char()),
    {
        let ghost before = r@;
        if chars[i] == '&' {
            r.append("&amp;");
        } else if chars[i] == '<' {
            r.append("&lt;");
        } else if chars[i] == '>' {
            r.append("&gt;");
        } else {
            r.push(chars[i]);
        }
        assert(s@.take(i + 1).drop_last() =~= s@.take(i as int));
        assert(r@ =~= before + markup_char()(s@[i as int]));
    }
    assert(s@.take(s@.len() as int) =~= s@);
    r
}

// ---------------------------------------------------------------------------
// Reading
// ---------------------------------------------------------------------------

/// What stands between `prefix` and `suffix` in `s`, if `s` begins and ends with them.
pub open spec fn between(s: Seq<char>, prefix: Seq<char>, suffix: Seq<char>) -> Option<Seq<char>> {
    match text::strip_prefix(s, prefix) {
        Some(rest) => text::strip_suffix(rest, suffix),
        None => None,
    }
}

/// The number of a notification in the reply to Notify.
pub open spec fn reply_id(reply: Seq<char>) -> Option<u32> {
    match between(text::trim(reply), "(uint32 "@, ",)"@) {
        Some(id) => number::as_u32(id),
        None => None,
    }
}

/// What stands between `prefix` and `suffix` in `s`, if `s` begins and ends with them.
fn inside<'a>(s: &'a [char], prefix: &str, suffix: &str) -> (r: Option<&'a [char]>)
    ensures
        match r {
            Some(x) => between(s@, prefix@, suffix@) == Some(x@),
            None => between(s@, prefix@, suffix@) is None,
        },
{
    match text::after_prefix(s, prefix) {
        Some(rest) => text::before_suffix(rest, suffix),
        None => None,
    }
}

/// Parses the Notify reply, e.g. "(uint32 42,)".
pub fn parse_notification_id(reply: &str) -> (id: Option<u32>)
    ensures
        id == reply_id(reply@),
{
    let chars = text::to_chars(text::trimmed(reply).as_str());
    match inside(chars.as_slice(), "(uint32 ", ",)") {
        Some(id) => number::parse_u32(id),
        None => None,
    }
}

/// What happened to a notification.
#[derive(Debug, PartialEq)]
pub enum NotificationSignal {
    /// The button with this key was clicked.
    Action(String),
    Closed,
}

/// The model of a `NotificationSignal`.
pub enum SignalModel {
    Action(Seq<char>),
    Closed,
}

impl DeepView for NotificationSignal {
    type V = SignalModel;

    open spec fn deep_view(&self) -> SignalModel {
        match self {
            NotificationSignal::Action(key) => SignalModel::Action(key@),
            NotificationSignal::Closed => SignalModel::Closed,
        }
    }
}

/// A signal's name and its arguments, without the brackets around them.
pub open spec fn signal_parts(line: Seq<char>) -> Option<(Seq<char>, Seq<char>)> {
    match text::split_once(line, "org.freedesktop.Notifications."@) {
        Some((_, signal)) => match text::split_once(signal, " "@) {
            Some((name, args)) => match between(args, "("@, ")"@) {
                Some(inner) => Some((name, inner)),
                None => None,
            },
            None => None,
        },
        None => None,
    }
}

/// The first of a signal's arguments, the number of the notification, and the rest of them.
pub open spec fn signal_id(args: Seq<char>) -> Option<(Seq<char>, Seq<char>)> {
    match text::strip_prefix(args, "uint32 "@) {
        Some(numbers) => text::split_once(numbers, ", "@),
        None => None,
    }
}

/// What a line says of notification `id`.
pub open spec fn signal_of(line: Seq<char>, id: u32) -> Option<SignalModel> {
    match signal_parts(line) {
        Some((name, args)) => match signal_id(args) {
            Some((signalled, rest)) => if number::as_u32(signalled) != Some(id) {
                None
            } else if name == "ActionInvoked"@ {
                match between(rest, "'"@, "'"@) {
                    Some(key) => Some(SignalModel::Action(key)),
                    None => None,
                }
            } else if name == "NotificationClosed"@ {
                Some(SignalModel::Closed)
            } else {
                None
            },
            None => None,
        },
        None => None,
    }
}

/// Parses a `gdbus monitor` line about notification `id`, e.g.
/// "/org/freedesktop/Notifications: org.freedesktop.Notifications.ActionInvoked (uint32 42, 'merge')".
pub fn parse_notification_signal(line: &str, id: u32) -> (signal: Option<NotificationSignal>)
    ensures
        signal.deep_view() == signal_of(line@, id),
{
    let chars = text::to_chars(line);
    let (_, signal) = match text::cut(chars.as_slice(), "org.freedesktop.Notifications.") {
        Some(parts) => parts,
        None => return None,
    };
    let (name, args) = match text::cut(signal, " ") {
        Some(parts) => parts,
        None => return None,
    };
    let inner = match inside(args, "(", ")") {
        Some(inner) => inner,
        None => return None,
    };
    let numbers = match text::after_prefix(inner, "uint32 ") {
        Some(numbers) => numbers,
        None => return None,
    };
    let (signalled, rest) = match text::cut(numbers, ", ") {
        Some(parts) => parts,
        None => return None,
    };
    match number::parse_u32(signalled) {
        Some(n) => {
            if n != id {
                return None;
            }
        },
        None => return None,
    }
    if text::spells(name, "ActionInvoked") {
        match inside(rest, "'", "'") {
            Some(key) => Some(NotificationSignal::Action(text::to_text(key))),
            None => None,
        }
    } else if text::spells(name, "NotificationClosed") {
        Some(NotificationSignal::Closed)
    } else {
        None
    }
}

// ---------------------------------------------------------------------------
// Showing a notification
// ---------------------------------------------------------------------------

/// A notification to show, with a button for each of its actions.
#[derive(Debug, PartialEq)]
pub struct Notification {
    pub summary: String,
    pub body: String,
    pub icon: String,
    /// The key and the label of each button.
    pub actions: Vec<(String, String)>,
}

/// The model of a `Notification`.
pub struct NotificationModel {
    pub summary: Seq<char>,
    pub body: Seq<char>,
    pub icon: Seq<char>,
    pub actions: Seq<(Seq<char>, Seq<char>)>,
}

impl DeepView for Notification {
    type V = NotificationModel;

    open spec fn deep_view(&self) -> NotificationModel {
        NotificationModel {
            summary: self.summary@,
            body: self.body@,
            icon: self.icon@,
            actions: self.actions.deep_view(),
        }
    }
}

/// Where on the bus notifications are.
pub open spec fn bus_args(verb: Seq<char>) -> Seq<Seq<char>> {
    seq![
        verb,
        "--session"@,
        "--dest"@,
        "org.freedesktop.Notifications"@,
        "--object-path"@,
        "/org/freedesktop/Notifications"@,
    ]
}

/// The keys and labels of the first `n` actions, quoted.
pub open spec fn quoted_actions(actions: Seq<(Seq<char>, Seq<char>)>, n: int) -> Seq<Seq<char>>
    decreases n,
{
    if n <= 0 {
        seq![]
    } else {
        quoted_actions(actions, n - 1).push(gvariant(actions[n - 1].0)).push(
            gvariant(actions[n - 1].1),
        )
    }
}

/// The command that follows what happens to notifications.
pub open spec fn monitor_args() -> process::CommandModel {
    process::CommandModel { program: "gdbus"@, args: bus_args("monitor"@) }
}

/// The command that shows a notification. It replaces no other one, stays on screen until
/// dismissed and never expires.
pub open spec fn notify_args(n: NotificationModel) -> process::CommandModel {
    process::CommandModel {
        program: "gdbus"@,
        args: bus_args("call"@) + seq![
            "--method"@,
            "org.freedesktop.Notifications.Notify"@,
            gvariant("gh_wrapper"@),
            "0"@,
            gvariant(n.icon),
            gvariant(n.summary),
            gvariant(markup(n.body)),
            "["@ + text::join(quoted_actions(n.actions, n.actions.len() as int), ", "@) + "]"@,
            "{'urgency': <byte 2>}"@,
            "0"@,
        ],
    }
}

/// The arguments that say where on the bus notifications are.
fn bus(verb: &str) -> (args: Vec<String>)
    ensures
        args.deep_view() == bus_args(verb@),
{
    let mut args: Vec<String> = Vec::new();
    args.push(verb.to_owned());
    args.push("--session".to_owned());
    args.push("--dest".to_owned());
    args.push("org.freedesktop.Notifications".to_owned());
    args.push("--object-path".to_owned());
    args.push("/org/freedesktop/Notifications".to_owned());
    assert(args.deep_view() =~= bus_args(verb@));
    args
}

/// The command that follows what happens to notifications.
pub fn monitor_command() -> (c: Command)
    ensures
        c.deep_view() == monitor_args(),
{
    Command { program: "gdbus".to_owned(), args: bus("monitor") }
}

/// The command that shows `n`.
pub fn notify_command(n: &Notification) -> (c: Command)
    ensures
        c.deep_view() == notify_args(n.deep_view()),
{
    let ghost model = n.deep_view();
    let mut actions: Vec<String> = Vec::new();
    for i in 0..n.actions.len()
        invariant
            model == n.deep_view(),
            actions.deep_view() == quoted_actions(model.actions, i as int),
    {
        actions.push(gvariant_string(n.actions[i].0.as_str()));
        actions.push(gvariant_string(n.actions[i].1.as_str()));
        assert(actions.deep_view() =~= quoted_actions(model.actions, i + 1));
    }
    let list = text::joined(actions.as_slice(), ", ");
    let mut args = bus("call");
    args.push("--method".to_owned());
    args.push("org.freedesktop.Notifications.Notify".to_owned());
    args.push(gvariant_string("gh_wrapper"));
    // replaces_id: 0 for a new notification.
    args.push("0".to_owned());
    args.push(gvariant_string(n.icon.as_str()));
    args.push(gvariant_string(n.summary.as_str()));
    args.push(gvariant_string(escape_markup(n.body.as_str()).as_str()));
    args.push(text::join3("[", list.as_str(), "]"));
    // Critical notifications stay on screen until dismissed.
    args.push("{'urgency': <byte 2>}".to_owned());
    // expire_timeout: never. The -1 "server default" would be taken as an option.
    args.push("0".to_owned());
    assert(args.deep_view() =~= notify_args(model).args);
    Command { program: "gdbus".to_owned(), args }
}

/// The number of the notification that was shown, as the end of the command says it.
pub open spec fn shown_id(output: Result<CommandOutput, String>) -> Result<u32, Seq<char>> {
    match output {
        Ok(o) => if !o.success {
            Err(text::trim(process::printed_text(o.stderr@)))
        } else {
            match reply_id(process::printed_text(o.stdout@)) {
                Some(id) => Ok(id),
                None => Err(
                    "unexpected gdbus reply: "@ + text::trim(process::printed_text(o.stdout@)),
                ),
            }
        },
        Err(e) => Err(process::not_run("gdbus"@, e@)),
    }
}

/// The number of the notification that was shown. `output` is that of `notify_command`, or the
/// reason why it could not be run.
pub fn notification_id(output: Result<CommandOutput, String>) -> (id: Result<u32, String>)
    ensures
        text::outcome(id) == shown_id(output),
{
    match output {
        Ok(o) => {
            if !o.success {
                return Err(
                    text::trimmed(process::from_utf8_lossy(o.stderr.as_slice()).as_str()),
                );
            }
            let reply = process::from_utf8_lossy(o.stdout.as_slice());
            match parse_notification_id(reply.as_str()) {
                Some(id) => Ok(id),
                None => Err(
                    text::join2("unexpected gdbus reply: ", text::trimmed(reply.as_str()).as_str()),
                ),
            }
        },
        Err(e) => Err(process::not_run_error("gdbus", e.as_str())),
    }
}

/// What a line of the monitor, or its end, means to whoever waits for a notification.
#[derive(Debug, PartialEq)]
pub enum Heard {
    /// Nothing about this notification: go on listening.
    Nothing,
    /// It is over; the button with this key was clicked, if any was.
    Over(Option<String>),
}

/// The model of a `Heard`.
pub enum HeardModel {
    Nothing,
    Over(Option<Seq<char>>),
}

impl DeepView for Heard {
    type V = HeardModel;

    open spec fn deep_view(&self) -> HeardModel {
        match self {
            Heard::Nothing => HeardModel::Nothing,
            Heard::Over(key) => HeardModel::Over(key.deep_view()),
        }
    }
}

/// What a line of the monitor means, where `None` is its end.
pub open spec fn heard(line: Option<Seq<char>>, id: u32) -> HeardModel {
    match line {
        Some(l) => match signal_of(l, id) {
            Some(SignalModel::Action(key)) => HeardModel::Over(Some(key)),
            Some(SignalModel::Closed) => HeardModel::Over(None),
            None => HeardModel::Nothing,
        },
        None => HeardModel::Over(None),
    }
}

/// What the lines of the monitor from `from` on say: the key of the button that was clicked, if any
/// was. They are heard in order until one says that the notification is over, or they end.
pub open spec fn listened(lines: Seq<Seq<char>>, id: u32, from: int) -> Option<Seq<char>>
    decreases lines.len() - from,
{
    if from < lines.len() {
        match heard(Some(lines[from]), id) {
            HeardModel::Over(key) => key,
            HeardModel::Nothing => listened(lines, id, from + 1),
        }
    } else {
        match heard(None, id) {
            HeardModel::Over(key) => key,
            HeardModel::Nothing => None,
        }
    }
}

/// The key of the clicked button, if any, as the monitor printed it. Its first line says only that
/// it listens from now on.
pub open spec fn answer(printed: Seq<Seq<char>>, id: u32) -> Option<Seq<char>> {
    listened(printed, id, 1)
}

/// What a line of the monitor means to whoever waits for notification `id`. `None` is the end of
/// the monitor's output. Every line but the first, which is printed before the notification is
/// shown, is heard in turn until the notification is over, see `answer`.
pub fn hear(line: Option<&str>, id: u32) -> (h: Heard)
    ensures
        h.deep_view() == heard(line.deep_view(), id),
{
    match line {
        Some(l) => match parse_notification_signal(l, id) {
            Some(NotificationSignal::Action(key)) => Heard::Over(Some(key)),
            Some(NotificationSignal::Closed) => Heard::Over(None),
            None => Heard::Nothing,
        },
        None => Heard::Over(None),
    }
}

// ---------------------------------------------------------------------------
// Laws
// ---------------------------------------------------------------------------

/// Escaping from the front.
proof fn lemma_each_first(s: Seq<char>, f: spec_fn(char) -> Seq<char>)
    requires
        s.len() > 0,
    ensures
        each(s, f) == f(s[0]) + each(s.drop_first(), f),
    decreases s.len(),
{
    if s.len() == 1 {
        assert(s.drop_last() =~= seq![]);
        assert(s.drop_first() =~= seq![]);
        assert(each(s.drop_last(), f) =~= seq![]);
        assert(each(s, f) =~= f(s[0]) + each(s.drop_first(), f));
    } else {
        lemma_each_first(s.drop_last(), f);
        assert(s.drop_last().drop_first() =~= s.drop_first().drop_last());
        assert(each(s, f) =~= f(s[0]) + each(s.drop_first(), f));
    }
}

/// What a quoted string, its opening quote already read, stands for, and what follows it: it ends
/// at the first quote that no backslash stands before, and a backslash stands for what follows it.
pub open spec fn unquoted(t: Seq<char>) -> Option<(Seq<char>, Seq<char>)>
    decreases t.len(),
{
    if t.len() == 0 {
        None
    } else if t[0] == '\'' {
        Some((seq![], t.skip(1)))
    } else if t[0] == '\\' {
        if t.len() == 1 {
            None
        } else {
            match unquoted(t.skip(2)) {
                Some((value, rest)) => Some((seq![t[1]] + value, rest)),
                None => None,
            }
        }
    } else {
        match unquoted(t.skip(1)) {
            Some((value, rest)) => Some((seq![t[0]] + value, rest)),
            None => None,
        }
    }
}

proof fn lemma_unquoted(s: Seq<char>, rest: Seq<char>)
    ensures
        unquoted(each(s, gvariant_char()) + seq!['\''] + rest) == Some((s, rest)),
    decreases s.len(),
{
    let f = gvariant_char();
    let t = each(s, f) + seq!['\''] + rest;
    if s.len() == 0 {
        assert(t[0] == '\'');
        assert(t.skip(1) =~= rest);
        assert(s =~= seq![]);
    } else {
        lemma_each_first(s, f);
        let tail = s.drop_first();
        lemma_unquoted(tail, rest);
        let next = each(tail, f) + seq!['\''] + rest;
        if s[0] == '\\' || s[0] == '\'' {
            assert(t[0] == '\\');
            assert(t[1] == s[0]);
            assert(t.skip(2) =~= next);
        } else {
            assert(t[0] == s[0]);
            assert(t.skip(1) =~= next);
        }
        assert(seq![s[0]] + tail =~= s);
    }
}

/// A quoted string is taken literally: whatever it holds and whatever follows it, the reader of
/// the quoted text gets the string back, and goes on behind its closing quote.
pub proof fn law_quoted_strings_are_literal(s: Seq<char>, rest: Seq<char>)
    ensures
        gvariant(s)[0] == '\'',
        unquoted((gvariant(s) + rest).skip(1)) == Some((s, rest)),
{
    lemma_unquoted(s, rest);
    assert((gvariant(s) + rest).skip(1) =~= each(s, gvariant_char()) + seq!['\''] + rest);
}

/// What markup shows, if it has no tags.
pub open spec fn shown(t: Seq<char>) -> Seq<char>
    decreases t.len(),
{
    if t.len() == 0 {
        seq![]
    } else if "&amp;"@.is_prefix_of(t) && "&amp;"@.len() > 0 {
        seq!['&'] + shown(t.skip("&amp;"@.len() as int))
    } else if "&lt;"@.is_prefix_of(t) && "&lt;"@.len() > 0 {
        seq!['<'] + shown(t.skip("&lt;"@.len() as int))
    } else if "&gt;"@.is_prefix_of(t) && "&gt;"@.len() > 0 {
        seq!['>'] + shown(t.skip("&gt;"@.len() as int))
    } else {
        seq![t[0]] + shown(t.skip(1))
    }
}

/// Markup for a text shows that text.
pub proof fn law_markup_shows_the_text(s: Seq<char>)
    ensures
        shown(markup(s)) == s,
    decreases s.len(),
{
    reveal_strlit("&amp;");
    reveal_strlit("&lt;");
    reveal_strlit("&gt;");
    let f = markup_char();
    let t = markup(s);
    if s.len() > 0 {
        lemma_each_first(s, f);
        let tail = s.drop_first();
        law_markup_shows_the_text(tail);
        assert(t == f(s[0]) + markup(tail));
        assert(seq![s[0]] + tail =~= s);
        if s[0] == '&' {
            assert(t.take(5) =~= "&amp;"@);
            assert(t.skip(5) =~= markup(tail));
        } else if s[0] == '<' {
            assert(t.take(4) =~= "&lt;"@);
            assert(t.skip(4) =~= markup(tail));
            assert(t[1] == 'l');
            assert(!"&amp;"@.is_prefix_of(t)) by {
                if "&amp;"@.is_prefix_of(t) {
                    assert(t.take(5)[1] == 'a');
                }
            }
        } else if s[0] == '>' {
            assert(t.take(4) =~= "&gt;"@);
            assert(t.skip(4) =~= markup(tail));
            assert(t[1] == 'g');
            assert(!"&amp;"@.is_prefix_of(t)) by {
                if "&amp;"@.is_prefix_of(t) {
                    assert(t.take(5)[1] == 'a');
                }
            }
            assert(!"&lt;"@.is_prefix_of(t)) by {
                if "&lt;"@.is_prefix_of(t) {
                    assert(t.take(4)[1] == 'l');
                }
            }
        } else {
            assert(t[0] == s[0]);
            assert(t.skip(1) =~= markup(tail));
            assert(!"&amp;"@.is_prefix_of(t)) by {
                if "&amp;"@.is_prefix_of(t) {
                    assert(t.take(5)[0] == '&');
                }
            }
            assert(!"&lt;"@.is_prefix_of(t)) by {
                if "&lt;"@.is_prefix_of(t) {
                    assert(t.take(4)[0] == '&');
                }
            }
            assert(!"&gt;"@.is_prefix_of(t)) by {
                if "&gt;"@.is_prefix_of(t) {
                    assert(t.take(4)[0] == '&');
                }
            }
        }
    } else {
        assert(s =~= seq![]);
    }
}

/// Markup for a text has no tags.
pub proof fn law_markup_has_no_tags(s: Seq<char>)
    ensures
        text::without(markup(s), '<'),
        text::without(markup(s), '>'),
    decreases s.len(),
{
    reveal_strlit("&amp;");
    reveal_strlit("&lt;");
    reveal_strlit("&gt;");
    if s.len() > 0 {
        law_markup_has_no_tags(s.drop_last());
        let front = markup(s.drop_last());
        let t = markup(s);
        assert forall|i: int| 0 <= i < t.len() implies t[i] != '<' && t[i] != '>' by {
            if i < front.len() {
                assert(t[i] == front[i]);
            } else {
                assert(t[i] == markup_char()(s.last())[i - front.len()]);
            }
        }
    }
}

/// Cutting at a pattern that does not stand further left.
proof fn lemma_cut(a: Seq<char>, pattern: Seq<char>, b: Seq<char>)
    requires
        forall|j: int| 0 <= j < a.len() ==> !text::occurs_at(a + pattern + b, pattern, j),
    ensures
        text::split_once(a + pattern + b, pattern) == Some((a, b)),
{
    let s = a + pattern + b;
    let n = a.len() as int;
    assert(s.subrange(n, n + pattern.len()) =~= pattern);
    text::lemma_find(s, pattern, n);
    assert(s.take(n) =~= a);
    assert(s.skip(n + pattern.len()) =~= b);
}

/// Cutting at a pattern whose first character does not stand further left.
proof fn lemma_cut_at_char(a: Seq<char>, pattern: Seq<char>, b: Seq<char>)
    requires
        pattern.len() > 0,
        text::without(a, pattern[0]),
    ensures
        text::split_once(a + pattern + b, pattern) == Some((a, b)),
{
    let s = a + pattern + b;
    assert forall|j: int| 0 <= j < a.len() implies !text::occurs_at(s, pattern, j) by {
        if text::occurs_at(s, pattern, j) {
            assert(s.subrange(j, j + pattern.len())[0] == a[j]);
        }
    }
    lemma_cut(a, pattern, b);
}

/// Taking off what was put around a text.
proof fn lemma_between(prefix: Seq<char>, s: Seq<char>, suffix: Seq<char>)
    ensures
        between(prefix + s + suffix, prefix, suffix) == Some(s),
{
    let t = prefix + s + suffix;
    let rest = t.skip(prefix.len() as int);
    assert(t.take(prefix.len() as int) =~= prefix);
    assert(rest =~= s + suffix);
    assert(rest.skip(s.len() as int) =~= suffix);
    assert(rest.take(s.len() as int) =~= s);
}

/// A line of the monitor about a signal of the notification server.
pub open spec fn monitor_line(signal: Seq<char>) -> Seq<char> {
    "/org/freedesktop/Notifications: "@ + "org.freedesktop.Notifications."@ + signal
}

/// A signal of the notification server: its name, the notification and what else it says.
pub open spec fn signal_text(name: Seq<char>, id: u32, rest: Seq<char>) -> Seq<char> {
    name + " (uint32 "@ + number::decimal(id as nat) + ", "@ + rest + ")"@
}

proof fn lemma_monitor_line(signal: Seq<char>)
    ensures
        text::split_once(monitor_line(signal), "org.freedesktop.Notifications."@) == Some(
            ("/org/freedesktop/Notifications: "@, signal),
        ),
{
    reveal_strlit("/org/freedesktop/Notifications: ");
    reveal_strlit("org.freedesktop.Notifications.");
    let a = "/org/freedesktop/Notifications: "@;
    let p = "org.freedesktop.Notifications."@;
    let s = a + p + signal;
    assert(text::without(a, '.'));
    assert forall|j: int| 0 <= j < a.len() implies !text::occurs_at(s, p, j) by {
        if text::occurs_at(s, p, j) {
            let here = s.subrange(j, j + p.len());
            assert(here[0] == 'o');
            assert(here[3] == '.');
            assert(s[j] == a[j]);
            if j + 3 < a.len() {
                assert(s[j + 3] == a[j + 3]);
            }
        }
    }
    lemma_cut(a, p, signal);
}

/// What a signal says of its notification: the number and what follows it.
pub open spec fn signal_args(id: u32, rest: Seq<char>) -> Seq<char> {
    "uint32 "@ + number::decimal(id as nat) + ", "@ + rest
}

/// A signal is its name, a space and what it says in brackets.
proof fn lemma_signal_text(name: Seq<char>, id: u32, rest: Seq<char>)
    ensures
        signal_text(name, id, rest) == name + " "@ + ("("@ + signal_args(id, rest) + ")"@),
{
    reveal_strlit(" (uint32 ");
    reveal_strlit("uint32 ");
    reveal_strlit(" ");
    reveal_strlit("(");
    let opening = " "@ + "("@ + "uint32 "@;
    assert(" (uint32 "@ =~= opening);
    let tail = number::decimal(id as nat) + ", "@ + rest;
    assert(signal_text(name, id, rest) =~= name + opening + (tail + ")"@));
    assert(signal_args(id, rest) =~= "uint32 "@ + tail);
    assert(name + " "@ + ("("@ + ("uint32 "@ + tail) + ")"@) =~= name + opening + (tail + ")"@));
}

/// The parts of a signal are read from the line about it.
proof fn lemma_signal_parts(name: Seq<char>, id: u32, rest: Seq<char>)
    requires
        text::without(name, ' '),
    ensures
        signal_parts(monitor_line(signal_text(name, id, rest))) == Some(
            (name, signal_args(id, rest)),
        ),
{
    let args = "("@ + signal_args(id, rest) + ")"@;
    reveal_strlit(" ");
    lemma_monitor_line(signal_text(name, id, rest));
    lemma_signal_text(name, id, rest);
    lemma_cut_at_char(name, " "@, args);
    lemma_between("("@, signal_args(id, rest), ")"@);
}

/// The number of the notification is read from what a signal says.
proof fn lemma_signal_id(id: u32, rest: Seq<char>)
    ensures
        signal_id(signal_args(id, rest)) == Some((number::decimal(id as nat), rest)),
        number::as_u32(number::decimal(id as nat)) == Some(id),
{
    reveal_strlit(", ");
    let digits = number::decimal(id as nat);
    let numbers = digits + ", "@ + rest;
    let args = signal_args(id, rest);
    number::law_decimal_round_trip(id as nat);
    number::law_u32_round_trip(id);
    assert forall|i: int| 0 <= i < digits.len() implies digits[i] != ',' by {
        assert(number::is_digit(digits[i]));
    }
    lemma_cut_at_char(digits, ", "@, rest);
    assert(args =~= "uint32 "@ + numbers);
    assert(args.take("uint32 "@.len() as int) =~= "uint32 "@);
    assert(args.skip("uint32 "@.len() as int) =~= numbers);
}

/// What a line about notification `id` says to whoever waits for notification `waiting`.
proof fn lemma_signal(name: Seq<char>, id: u32, rest: Seq<char>, waiting: u32)
    requires
        text::without(name, ' '),
    ensures
        waiting != id ==> signal_of(monitor_line(signal_text(name, id, rest)), waiting) is None,
        waiting == id ==> signal_of(monitor_line(signal_text(name, id, rest)), waiting)
            == if name == "ActionInvoked"@ {
            match between(rest, "'"@, "'"@) {
                Some(key) => Some(SignalModel::Action(key)),
                None => None,
            }
        } else if name == "NotificationClosed"@ {
            Some(SignalModel::Closed)
        } else {
            None
        },
{
    lemma_signal_parts(name, id, rest);
    lemma_signal_id(id, rest);
}

/// A click is heard by whoever waits for that notification, with the button's key, and by nobody
/// else.
pub proof fn law_clicks_are_heard(id: u32, key: Seq<char>, waiting: u32)
    ensures
        heard(
            Some(monitor_line(signal_text("ActionInvoked"@, id, "'"@ + key + "'"@))),
            waiting,
        ) == if waiting == id {
            HeardModel::Over(Some(key))
        } else {
            HeardModel::Nothing
        },
{
    assert(text::without("ActionInvoked"@, ' ')) by {
        reveal_strlit("ActionInvoked");
    }
    lemma_signal("ActionInvoked"@, id, "'"@ + key + "'"@, waiting);
    lemma_between("'"@, key, "'"@);
}

/// That a notification was closed is heard by whoever waits for it, and by nobody else.
pub proof fn law_closing_is_heard(id: u32, reason: Seq<char>, waiting: u32)
    ensures
        heard(Some(monitor_line(signal_text("NotificationClosed"@, id, reason))), waiting)
            == if waiting == id {
            HeardModel::Over(None)
        } else {
            HeardModel::Nothing
        },
{
    assert(text::without("NotificationClosed"@, ' ') && "NotificationClosed"@
        != "ActionInvoked"@) by {
        reveal_strlit("NotificationClosed");
        reveal_strlit("ActionInvoked");
        assert("NotificationClosed"@.len() != "ActionInvoked"@.len());
    }
    lemma_signal("NotificationClosed"@, id, reason, waiting);
}

/// The first line, from the second one on, that says that the notification is over decides what
/// was clicked. Where there is none, nothing was.
pub proof fn law_the_first_signal_decides(printed: Seq<Seq<char>>, id: u32, k: int)
    requires
        1 <= k,
        forall|i: int| 1 <= i < k && i < printed.len() ==> heard(Some(#[trigger] printed[i]), id)
            is Nothing,
        k < printed.len() ==> heard(Some(printed[k]), id) is Over,
    ensures
        answer(printed, id) == if k < printed.len() {
            heard(Some(printed[k]), id)->Over_0
        } else {
            None
        },
{
    lemma_listened(printed, id, 1, k);
}

/// Lines that say nothing of the notification are passed over.
proof fn lemma_listened(lines: Seq<Seq<char>>, id: u32, from: int, k: int)
    requires
        0 <= from <= k,
        forall|i: int| from <= i < k && i < lines.len() ==> heard(Some(#[trigger] lines[i]), id)
            is Nothing,
        k < lines.len() ==> heard(Some(lines[k]), id) is Over,
    ensures
        listened(lines, id, from) == if k < lines.len() {
            heard(Some(lines[k]), id)->Over_0
        } else {
            None
        },
    decreases k - from,
{
    if from < k && from < lines.len() {
        assert(heard(Some(lines[from]), id) is Nothing);
        lemma_listened(lines, id, from + 1, k);
    }
}

/// What the monitor prints once it listens is no answer, whatever it is.
pub proof fn law_the_subscription_line_is_dropped(
    first: Seq<char>,
    other: Seq<char>,
    rest: Seq<Seq<char>>,
    id: u32,
)
    ensures
        answer(seq![first] + rest, id) == answer(seq![other] + rest, id),
{
    lemma_same_from(seq![first] + rest, seq![other] + rest, id, 1);
}

/// What was printed earlier does not matter.
proof fn lemma_same_from(a: Seq<Seq<char>>, b: Seq<Seq<char>>, id: u32, from: int)
    requires
        0 <= from,
        a.len() == b.len(),
        forall|i: int| from <= i < a.len() ==> a[i] == b[i],
    ensures
        listened(a, id, from) == listened(b, id, from),
    decreases a.len() - from,
{
    if from < a.len() {
        assert(a[from] == b[from]);
        lemma_same_from(a, b, id, from + 1);
    }
}

/// The number in a reply to Notify is read, whatever it is.
pub proof fn law_replies_are_read(id: u32)
    ensures
        reply_id("(uint32 "@ + number::decimal(id as nat) + ",)"@) == Some(id),
        reply_id(("(uint32 "@ + number::decimal(id as nat) + ",)"@).push('\n')) == Some(id),
{
    reveal_strlit("(uint32 ");
    reveal_strlit(",)");
    let s = "(uint32 "@ + number::decimal(id as nat) + ",)"@;
    lemma_between("(uint32 "@, number::decimal(id as nat), ",)"@);
    number::law_u32_round_trip(id);
    assert(s[0] == '(');
    assert(s.last() == ')');
    assert(text::trim(s) == s);
    assert(s.push('\n').drop_last() =~= s);
    assert(text::trim(s.push('\n')) == s);
}

/// A quoted string is its characters in quotes: backslashes and quotes behind a backslash, and all
/// others as they are.
pub proof fn law_quoting_goes_by_characters(s: Seq<char>, c: char)
    ensures
        gvariant(seq![]) == seq!['\'', '\''],
        gvariant(s.push(c)) == gvariant(s).drop_last() + (if c == '\\' || c == '\'' {
            seq!['\\', c]
        } else {
            seq![c]
        }) + seq!['\''],
{
    assert(s.push(c).drop_last() =~= s);
    assert(gvariant(seq![]) =~= seq!['\'', '\'']);
    assert(gvariant(s).drop_last() =~= seq!['\''] + each(s, gvariant_char()));
    assert(gvariant(s.push(c)) =~= gvariant(s).drop_last() + gvariant_char()(c) + seq!['\'']);
}

/// Markup is made character by character: three of them have names, all others are as they are.
pub proof fn law_markup_goes_by_characters(s: Seq<char>, c: char)
    ensures
        markup(seq![]) == Seq::<char>::empty(),
        markup(s.push(c)) == markup(s) + (if c == '&' {
            seq!['&', 'a', 'm', 'p', ';']
        } else if c == '<' {
            seq!['&', 'l', 't', ';']
        } else if c == '>' {
            seq!['&', 'g', 't', ';']
        } else {
            seq![c]
        }),
{
    reveal_strlit("&amp;");
    reveal_strlit("&lt;");
    reveal_strlit("&gt;");
    assert("&amp;"@ =~= seq!['&', 'a', 'm', 'p', ';']);
    assert("&lt;"@ =~= seq!['&', 'l', 't', ';']);
    assert("&gt;"@ =~= seq!['&', 'g', 't', ';']);
    assert(s.push(c).drop_last() =~= s);
}

/// A notification is shown with its icon, its summary and its body, each quoted, the body as
/// markup; it replaces none, stays until it is dismissed and does not expire.
pub proof fn law_notifications_are_shown_whole(n: NotificationModel)
    ensures
        notify_args(n).program == "gdbus"@,
        notify_args(n).args.len() == 16,
        notify_args(n).args.take(10) == seq![
            "call"@,
            "--session"@,
            "--dest"@,
            "org.freedesktop.Notifications"@,
            "--object-path"@,
            "/org/freedesktop/Notifications"@,
            "--method"@,
            "org.freedesktop.Notifications.Notify"@,
            gvariant("gh_wrapper"@),
            "0"@,
        ],
        notify_args(n).args[10] == gvariant(n.icon),
        notify_args(n).args[11] == gvariant(n.summary),
        notify_args(n).args[12] == gvariant(markup(n.body)),
        notify_args(n).args[14] == "{'urgency': <byte 2>}"@,
        notify_args(n).args[15] == "0"@,
        monitor_args().program == "gdbus"@,
        monitor_args().args == seq![
            "monitor"@,
            "--session"@,
            "--dest"@,
            "org.freedesktop.Notifications"@,
            "--object-path"@,
            "/org/freedesktop/Notifications"@,
        ],
{
    assert(notify_args(n).args.take(10) =~= seq![
        "call"@,
        "--session"@,
        "--dest"@,
        "org.freedesktop.Notifications"@,
        "--object-path"@,
        "/org/freedesktop/Notifications"@,
        "--method"@,
        "org.freedesktop.Notifications.Notify"@,
        gvariant("gh_wrapper"@),
        "0"@,
    ]);
}

/// A notification has a button for each of its actions, in order: its key and its label, quoted.
pub proof fn law_each_action_has_a_button(n: NotificationModel, i: int)
    ensures
        ({
            let list = quoted_actions(n.actions, n.actions.len() as int);
            &&& notify_args(n).args[13] == seq!['['] + text::join(list, seq![',', ' ']) + seq![']']
            &&& list.len() == 2 * n.actions.len()
            &&& 0 <= i < n.actions.len() ==> list[2 * i] == gvariant(n.actions[i].0) && list[2 * i
                + 1] == gvariant(n.actions[i].1)
        }),
{
    reveal_strlit("[");
    reveal_strlit("]");
    reveal_strlit(", ");
    assert("["@ =~= seq!['[']);
    assert("]"@ =~= seq![']']);
    assert(", "@ =~= seq![',', ' ']);
    lemma_quoted_actions(n.actions, n.actions.len() as int, i);
}

proof fn lemma_quoted_actions(actions: Seq<(Seq<char>, Seq<char>)>, n: int, i: int)
    requires
        0 <= n <= actions.len(),
    ensures
        quoted_actions(actions, n).len() == 2 * n,
        0 <= i < n ==> quoted_actions(actions, n)[2 * i] == gvariant(actions[i].0)
            && quoted_actions(actions, n)[2 * i + 1] == gvariant(actions[i].1),
    decreases n,
{
    if n > 0 {
        lemma_quoted_actions(actions, n - 1, i);
    }
}

/// A notification was shown exactly if the program succeeded and its reply names one; else it is
/// said why not: by what the program said, by its reply, or by why it could not be run.
pub proof fn law_only_named_notifications_were_shown(output: CommandOutput, reason: String)
    ensures
        ({
            let stdout = process::printed_text(output.stdout@);
            let stderr = process::printed_text(output.stderr@);
            &&& output.success && reply_id(stdout) is Some ==> shown_id(Ok(output)) == Ok::<
                u32,
                Seq<char>,
            >(reply_id(stdout)->0)
            &&& output.success && reply_id(stdout) is None ==> shown_id(Ok(output)) == Err::<
                u32,
                Seq<char>,
            >("unexpected gdbus reply: "@ + text::trim(stdout))
            &&& !output.success ==> shown_id(Ok(output)) == Err::<u32, Seq<char>>(
                text::trim(stderr),
            )
            &&& shown_id(Err(reason)) == Err::<u32, Seq<char>>(
                "failed to run "@ + "gdbus"@ + ": "@ + reason@,
            )
        }),
{
}

/// What is found between two texts was put there.
proof fn lemma_between_back(s: Seq<char>, prefix: Seq<char>, suffix: Seq<char>)
    requires
        between(s, prefix, suffix) is Some,
    ensures
        s == prefix + between(s, prefix, suffix)->0 + suffix,
{
    let inner = between(s, prefix, suffix)->0;
    let rest = s.skip(prefix.len() as int);
    assert(s =~= s.take(prefix.len() as int) + rest);
    assert(s.take(prefix.len() as int) == prefix);
    assert(rest =~= rest.take(rest.len() - suffix.len()) + rest.skip(rest.len() - suffix.len()));
    assert(rest.skip(rest.len() - suffix.len()) == suffix);
    assert(prefix + (inner + suffix) =~= prefix + inner + suffix);
}

/// What was cut can be put together again.
proof fn lemma_cut_back(s: Seq<char>, pattern: Seq<char>)
    requires
        text::split_once(s, pattern) is Some,
    ensures
        s == (text::split_once(s, pattern)->0).0 + pattern + (text::split_once(s, pattern)->0).1,
{
    let i = text::find(s, pattern)->0;
    assert(text::first_at(s, pattern, i));
    let a = s.take(i);
    let b = s.skip(i + pattern.len());
    assert(s.subrange(i, i + pattern.len()) == pattern);
    assert(s =~= a + s.subrange(i, i + pattern.len()) + b);
}

/// A reply names a notification only in one form: the number in its brackets, with nothing but
/// white space around them.
pub proof fn law_replies_have_one_form(reply: Seq<char>)
    ensures
        reply_id(reply) matches Some(id) ==> exists|digits: Seq<char>|
            text::trim(reply) == "(uint32 "@ + digits + ",)"@ && #[trigger] number::as_u32(digits)
                == Some(id),
        forall|digits: Seq<char>|
            text::trim(reply) == "(uint32 "@ + digits + ",)"@ ==> reply_id(reply)
                == #[trigger] number::as_u32(digits),
{
    assert forall|digits: Seq<char>|
        text::trim(reply) == "(uint32 "@ + digits + ",)"@ implies reply_id(reply)
        == #[trigger] number::as_u32(digits) by {
        lemma_between("(uint32 "@, digits, ",)"@);
    }
    if reply_id(reply) is Some {
        let s = text::trim(reply);
        lemma_between_back(s, "(uint32 "@, ",)"@);
        let digits = between(s, "(uint32 "@, ",)"@)->0;
        assert(number::as_u32(digits) == reply_id(reply));
    }
}

/// Whether `line` tells, behind anything, that `name` happened to notification `id`, and `rest` of
/// it.
pub open spec fn tells(line: Seq<char>, name: Seq<char>, id: u32, rest: Seq<char>) -> bool {
    exists|before: Seq<char>, digits: Seq<char>|
        #![trigger number::as_u32(digits), before + "org.freedesktop.Notifications."@]
        number::as_u32(digits) == Some(id) && line == before + "org.freedesktop.Notifications."@ + (
        name + " "@ + ("("@ + ("uint32 "@ + (digits + ", "@ + rest)) + ")"@))
}

/// Nothing is heard of a notification but what a line tells of it: a click only from a line that
/// says it was invoked, with its key in quotes, and the end only from one that says it was closed.
pub proof fn law_only_signals_are_heard(line: Seq<char>, id: u32)
    ensures
        match heard(Some(line), id) {
            HeardModel::Over(Some(key)) => tells(
                line,
                "ActionInvoked"@,
                id,
                "'"@ + key + "'"@,
            ),
            HeardModel::Over(None) => exists|rest: Seq<char>|
                tells(line, "NotificationClosed"@, id, rest),
            HeardModel::Nothing => true,
        },
{
    if signal_of(line, id) is Some {
        let (name, args) = signal_parts(line)->0;
        let (digits, rest) = signal_id(args)->0;
        lemma_told(line, id);
        if name == "ActionInvoked"@ {
            lemma_between_back(rest, "'"@, "'"@);
        }
        assert(tells(line, name, id, rest));
    }
}

/// A signal tells of a notification by its number.
proof fn lemma_told(line: Seq<char>, id: u32)
    requires
        signal_of(line, id) is Some,
    ensures
        signal_parts(line) is Some,
        signal_id((signal_parts(line)->0).1) is Some,
        tells(
            line,
            (signal_parts(line)->0).0,
            id,
            (signal_id((signal_parts(line)->0).1)->0).1,
        ),
{
    let (before, signal) = text::split_once(line, "org.freedesktop.Notifications."@)->0;
    let (name, bracketed) = text::split_once(signal, " "@)->0;
    let args = between(bracketed, "("@, ")"@)->0;
    let numbers = text::strip_prefix(args, "uint32 "@)->0;
    let (digits, rest) = text::split_once(numbers, ", "@)->0;
    lemma_cut_back(line, "org.freedesktop.Notifications."@);
    lemma_cut_back(signal, " "@);
    lemma_between_back(bracketed, "("@, ")"@);
    lemma_cut_back(numbers, ", "@);
    assert(args =~= args.take("uint32 "@.len() as int) + numbers);
    assert(args == "uint32 "@ + numbers);
    assert(number::as_u32(digits) == Some(id));
    assert(line == before + "org.freedesktop.Notifications."@ + (name + " "@ + ("("@ + ("uint32 "@
        + (digits + ", "@ + rest)) + ")"@)));
}

/// The end of the monitor is the end of waiting, without a click.
pub proof fn law_the_end_is_heard(id: u32)
    ensures
        heard(None, id) == HeardModel::Over(None),
{
}

/// The model of a notification shows every field.
pub proof fn law_models_show_every_field(n: Notification)
    ensures
        n.deep_view().summary == n.summary@,
        n.deep_view().body == n.body@,
        n.deep_view().icon == n.icon@,
        n.deep_view().actions.len() == n.actions@.len(),
        forall|i: int|
            0 <= i < n.actions@.len() ==> #[trigger] n.deep_view().actions[i] == (
                n.actions@[i].0@,
                n.actions@[i].1@,
            ),
{
}

/// A signal is read wherever in a line it stands, by the first mention of the notification server,
/// however its number is written; whoever waits for another notification hears nothing, and other
/// signals say nothing.
pub proof fn law_signals_are_read_wherever_they_stand(
    before: Seq<char>,
    name: Seq<char>,
    digits: Seq<char>,
    rest: Seq<char>,
    key: Seq<char>,
    id: u32,
)
    requires
        text::without(name, ' '),
        text::without(digits, ','),
        forall|j: int|
            0 <= j < before.len() ==> !text::occurs_at(
                before + "org.freedesktop.Notifications."@ + (name + " "@ + ("("@ + ("uint32 "@ + (
                digits + ", "@ + rest)) + ")"@)),
                "org.freedesktop.Notifications."@,
                j,
            ),
    ensures
        ({
            let line = before + "org.freedesktop.Notifications."@ + (name + " "@ + ("("@ + (
            "uint32 "@ + (digits + ", "@ + rest)) + ")"@));
            let said = heard(Some(line), id);
            &&& number::as_u32(digits) != Some(id) ==> said is Nothing
            &&& name != "ActionInvoked"@ && name != "NotificationClosed"@ ==> said is Nothing
            &&& number::as_u32(digits) == Some(id) && name == "NotificationClosed"@ ==> said
                == HeardModel::Over(None)
            &&& number::as_u32(digits) == Some(id) && name == "ActionInvoked"@ && rest == "'"@ + key
                + "'"@ ==> said == HeardModel::Over(Some(key))
        }),
{
    let args = "uint32 "@ + (digits + ", "@ + rest);
    let signal = name + " "@ + ("("@ + args + ")"@);
    let line = before + "org.freedesktop.Notifications."@ + signal;
    lemma_cut(before, "org.freedesktop.Notifications."@, signal);
    lemma_parts_of(line, before, name, args);
    lemma_id_of(digits, rest);
    lemma_signal_says(line, name, args, digits, rest, id);
    lemma_between("'"@, key, "'"@);
    assert("NotificationClosed"@ != "ActionInvoked"@) by {
        reveal_strlit("NotificationClosed");
        reveal_strlit("ActionInvoked");
        assert("NotificationClosed"@.len() != "ActionInvoked"@.len());
    }
}

/// The parts of a signal in a line.
proof fn lemma_parts_of(line: Seq<char>, before: Seq<char>, name: Seq<char>, args: Seq<char>)
    requires
        text::without(name, ' '),
        text::split_once(line, "org.freedesktop.Notifications."@) == Some(
            (before, name + " "@ + ("("@ + args + ")"@)),
        ),
    ensures
        signal_parts(line) == Some((name, args)),
{
    assert(" "@.len() == 1 && " "@[0] == ' ') by {
        reveal_strlit(" ");
    }
    lemma_cut_at_char(name, " "@, "("@ + args + ")"@);
    lemma_between("("@, args, ")"@);
}

/// The number in what a signal says.
proof fn lemma_id_of(digits: Seq<char>, rest: Seq<char>)
    requires
        text::without(digits, ','),
    ensures
        signal_id("uint32 "@ + (digits + ", "@ + rest)) == Some((digits, rest)),
{
    let numbers = digits + ", "@ + rest;
    let args = "uint32 "@ + numbers;
    assert(args.take("uint32 "@.len() as int) =~= "uint32 "@);
    assert(args.skip("uint32 "@.len() as int) =~= numbers);
    assert(", "@.len() == 2 && ", "@[0] == ',') by {
        reveal_strlit(", ");
    }
    lemma_cut_at_char(digits, ", "@, rest);
}

/// What a signal says, by its parts.
proof fn lemma_signal_says(
    line: Seq<char>,
    name: Seq<char>,
    args: Seq<char>,
    digits: Seq<char>,
    rest: Seq<char>,
    id: u32,
)
    requires
        signal_parts(line) == Some((name, args)),
        signal_id(args) == Some((digits, rest)),
    ensures
        number::as_u32(digits) != Some(id) ==> signal_of(line, id) is None,
        number::as_u32(digits) == Some(id) ==> signal_of(line, id) == if name == "ActionInvoked"@ {
            match between(rest, "'"@, "'"@) {
                Some(key) => Some(SignalModel::Action(key)),
                None => None,
            }
        } else if name == "NotificationClosed"@ {
            Some(SignalModel::Closed)
        } else {
            None
        },
{
}

} // verus!
