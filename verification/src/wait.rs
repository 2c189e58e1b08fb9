//! Waiting for the CI of a pull request.
//!
//! Waiting alternates between looking at the pull request and deciding what to do next. The
//! functions here decide; each returns a `Step` that says what to tell the user and what to do,
//! and what was done goes into the next function.

use vstd::prelude::*;
use vstd::string::*;

use crate::ci::CiStatus;
use crate::notification;
use crate::notification::Notification;
use crate::process;
use crate::process::{Command, Message};
use crate::pull_request;
use crate::pull_request::PrInfo;
use crate::text;

verus! {

/// How often to look at the PR's CI, in seconds.
pub const POLL_INTERVAL: u64 = 30;

/// How long to keep looking at a head commit without checks, since CI takes a moment to register
/// them after a push. In nanoseconds: five minutes.
pub const NO_CHECKS_GRACE: u128 = 300_000_000_000;

/// A pull request whose CI has not finished. Times are in nanoseconds since any fixed moment.
#[derive(Debug, PartialEq)]
pub struct Waiting {
    /// The pull request as last seen.
    pub pr: PrInfo,
    /// When its head commit was first seen.
    pub head_since: u128,
}

/// The model of a `Waiting`.
pub struct WaitingModel {
    pub pr: pull_request::PrInfoModel,
    pub head_since: u128,
}

impl DeepView for Waiting {
    type V = WaitingModel;

    open spec fn deep_view(&self) -> WaitingModel {
        WaitingModel { pr: self.pr.deep_view(), head_since: self.head_since }
    }
}

/// What to do next.
#[derive(Debug, PartialEq)]
pub enum Action {
    /// Look at the pull request again after `POLL_INTERVAL`, see `observe`.
    Poll(Waiting),
    /// CI has finished, and passed or not: show the notification, see `notified`.
    Notify(bool, Notification),
    /// CI has passed or not: merge the pull request, see `followed`.
    Merge(bool),
    /// CI has passed or not: run the command, which opens the pull request, see `followed`.
    Open(bool, Command),
    /// Waiting is over, with this result.
    Finish(Result<(), String>),
}

/// The model of an `Action`.
pub enum ActionModel {
    Poll(WaitingModel),
    Notify(bool, notification::NotificationModel),
    Merge(bool),
    Open(bool, process::CommandModel),
    Finish(Result<(), Seq<char>>),
}

impl DeepView for Action {
    type V = ActionModel;

    open spec fn deep_view(&self) -> ActionModel {
        match self {
            Action::Poll(w) => ActionModel::Poll(w.deep_view()),
            Action::Notify(passed, n) => ActionModel::Notify(*passed, n.deep_view()),
            Action::Merge(passed) => ActionModel::Merge(*passed),
            Action::Open(passed, c) => ActionModel::Open(*passed, c.deep_view()),
            Action::Finish(r) => ActionModel::Finish(text::outcome(*r)),
        }
    }
}

/// What to tell the user, in this order, and what to do then.
#[derive(Debug, PartialEq)]
pub struct Step {
    pub messages: Vec<Message>,
    pub action: Action,
}

/// The model of a `Step`.
pub struct StepModel {
    pub messages: Seq<process::MessageModel>,
    pub action: ActionModel,
}

impl DeepView for Step {
    type V = StepModel;

    open spec fn deep_view(&self) -> StepModel {
        StepModel { messages: self.messages.deep_view(), action: self.action.deep_view() }
    }
}

// ---------------------------------------------------------------------------
// Looking at the pull request
// ---------------------------------------------------------------------------

/// Whether CI has finished.
pub open spec fn is_over(ci: CiStatus) -> bool {
    ci == CiStatus::Success || ci == CiStatus::Failure
}

/// Whether `now` is so long after `since` that there will be no checks any more.
pub open spec fn is_past_grace(since: u128, now: u128) -> bool {
    now - since > NO_CHECKS_GRACE
}

/// The result of CI in words.
pub open spec fn summary(passed: bool) -> Seq<char> {
    if passed {
        "CI passed"@
    } else {
        "CI failed"@
    }
}

/// The notification about a pull request whose CI has finished. Only one that passed can be
/// merged.
pub open spec fn verdict(pr: pull_request::PrInfoModel) -> notification::NotificationModel {
    let passed = pr.ci == CiStatus::Success;
    notification::NotificationModel {
        summary: summary(passed),
        body: pr.repo + ": "@ + pr.title,
        icon: if passed {
            "emblem-success"@
        } else {
            "dialog-error"@
        },
        actions: if passed {
            seq![("merge"@, "Merge"@), ("open"@, "Open"@)]
        } else {
            seq![("open"@, "Open"@)]
        },
    }
}

/// What follows from a look at the pull request at `now`, behind the messages `said`.
pub open spec fn looked(
    said: Seq<process::MessageModel>,
    waiting: WaitingModel,
    now: u128,
) -> StepModel {
    let pr = waiting.pr;
    if is_over(pr.ci) {
        let passed = pr.ci == CiStatus::Success;
        StepModel {
            messages: said.push(
                process::MessageModel::Print(pr.ci.icon_text() + " "@ + summary(passed)),
            ),
            action: ActionModel::Notify(passed, verdict(pr)),
        }
    } else if pr.ci == CiStatus::NoChecks && is_past_grace(waiting.head_since, now) {
        StepModel { messages: said, action: ActionModel::Finish(Err("PR has no CI checks"@)) }
    } else {
        StepModel { messages: said, action: ActionModel::Poll(waiting) }
    }
}

/// The first step.
pub open spec fn started(
    fetched: Result<pull_request::PrInfoModel, Seq<char>>,
    now: u128,
) -> StepModel {
    match fetched {
        Ok(pr) => looked(
            seq![
                process::MessageModel::Print("Waiting for CI of "@ + pr.repo + ": "@ + pr.title),
            ],
            WaitingModel { pr, head_since: now },
            now,
        ),
        Err(e) => StepModel { messages: seq![], action: ActionModel::Finish(Err(e)) },
    }
}

/// What is known of the pull request after one more look at it. A new head commit is waited for
/// from its first sight on.
pub open spec fn updated(
    waiting: WaitingModel,
    fetched: Result<pull_request::PrInfoModel, Seq<char>>,
    now: u128,
) -> WaitingModel {
    match fetched {
        Ok(pr) => WaitingModel {
            pr,
            head_since: if pr.head_oid == waiting.pr.head_oid {
                waiting.head_since
            } else {
                now
            },
        },
        Err(_) => waiting,
    }
}

/// The step after one more look at the pull request.
pub open spec fn observed(
    waiting: WaitingModel,
    fetched: Result<pull_request::PrInfoModel, Seq<char>>,
    now: u128,
) -> StepModel {
    let said = match fetched {
        Ok(_) => seq![],
        Err(e) => seq![process::MessageModel::Warn("warning: "@ + e + ", retrying"@)],
    };
    looked(said, updated(waiting, fetched, now), now)
}

/// A text of its own, as a button's key or label.
fn button(key: &str, label: &str) -> (b: (String, String))
    ensures
        b.deep_view() == (key@, label@),
{
    (key.to_owned(), label.to_owned())
}

/// Decides what follows from a look at the pull request at `now`.
fn look(said: Vec<Message>, waiting: Waiting, now: u128) -> (step: Step)
    ensures
        step.deep_view() == looked(said.deep_view(), waiting.deep_view(), now),
{
    let mut messages = said;
    let ghost before = messages.deep_view();
    let ci = waiting.pr.ci;
    let passed = matches!(ci, CiStatus::Success);
    if passed || matches!(ci, CiStatus::Failure) {
        let (summary, icon) = if passed {
            ("CI passed", "emblem-success")
        } else {
            ("CI failed", "dialog-error")
        };
        let message = Message::Print(text::join3(ci.icon(), " ", summary));
        let ghost said_now = message.deep_view();
        messages.push(message);
        assert(messages.deep_view() =~= before.push(said_now));
        let mut actions: Vec<(String, String)> = Vec::new();
        if passed {
            actions.push(button("merge", "Merge"));
        }
        actions.push(button("open", "Open"));
        assert(actions.deep_view() =~= verdict(waiting.pr.deep_view()).actions);
        let body = text::join3(waiting.pr.repo.as_str(), ": ", waiting.pr.title.as_str());
        let notification = Notification {
            summary: summary.to_owned(),
            body,
            icon: icon.to_owned(),
            actions,
        };
        return Step { messages, action: Action::Notify(passed, notification) };
    }
    let since = waiting.head_since;
    if matches!(ci, CiStatus::NoChecks) && now >= since && now - since > NO_CHECKS_GRACE {
        return Step { messages, action: Action::Finish(Err("PR has no CI checks".to_owned())) };
    }
    Step { messages, action: Action::Poll(waiting) }
}

/// Starts waiting for a pull request, which was fetched at `now`. Fails fast on a bad URL; later
/// failures are likely network hiccups, so `observe` retries.
pub fn wait_pr(fetched: Result<PrInfo, String>, now: u128) -> (step: Step)
    ensures
        step.deep_view() == started(text::outcome(fetched), now),
{
    let mut messages: Vec<Message> = Vec::new();
    match fetched {
        Ok(pr) => {
            let mut line = text::join3("Waiting for CI of ", pr.repo.as_str(), ": ");
            line.append(pr.title.as_str());
            let message = Message::Print(line);
            let ghost said = message.deep_view();
            messages.push(message);
            assert(messages.deep_view() =~= seq![said]);
            look(messages, Waiting { pr, head_since: now }, now)
        },
        Err(e) => {
            assert(messages.deep_view() =~= seq![]);
            Step { messages, action: Action::Finish(Err(e)) }
        },
    }
}

/// Goes on waiting after the pull request was fetched again, at `now`. Each look is at the
/// current head commit, so force pushes are followed.
pub fn observe(waiting: Waiting, fetched: Result<PrInfo, String>, now: u128) -> (step: Step)
    ensures
        step.deep_view() == observed(waiting.deep_view(), text::outcome(fetched), now),
{
    let mut messages: Vec<Message> = Vec::new();
    match fetched {
        Ok(pr) => {
            assert(messages.deep_view() =~= seq![]);
            let head_since = if text::same(
                pr.head_oid.as_str(),
                waiting.pr.head_oid.as_str(),
            ) {
                waiting.head_since
            } else {
                now
            };
            look(messages, Waiting { pr, head_since }, now)
        },
        Err(e) => {
            let message = Message::Warn(text::join3("warning: ", e.as_str(), ", retrying"));
            let ghost said = message.deep_view();
            messages.push(message);
            assert(messages.deep_view() =~= seq![said]);
            look(messages, waiting, now)
        },
    }
}

// ---------------------------------------------------------------------------
// After the notification
// ---------------------------------------------------------------------------

/// The result of waiting.
pub open spec fn result_of(passed: bool) -> Result<(), Seq<char>> {
    if passed {
        Ok(())
    } else {
        Err("CI failed"@)
    }
}

/// The command that opens `url`.
pub open spec fn open_args(url: Seq<char>) -> process::CommandModel {
    process::CommandModel { program: "xdg-open"@, args: seq![url] }
}

/// The step after the notification: `clicked` is the key of the clicked action, if any, or the
/// reason why the notification could not be shown.
pub open spec fn clicked_step(
    passed: bool,
    url: Seq<char>,
    clicked: Result<Option<Seq<char>>, Seq<char>>,
) -> StepModel {
    match clicked {
        Ok(Some(key)) => StepModel {
            messages: seq![],
            action: if key == "merge"@ {
                ActionModel::Merge(passed)
            } else if key == "open"@ {
                ActionModel::Open(passed, open_args(url))
            } else {
                ActionModel::Finish(result_of(passed))
            },
        },
        Ok(None) => StepModel { messages: seq![], action: ActionModel::Finish(result_of(passed)) },
        Err(e) => StepModel {
            messages: seq![
                process::MessageModel::Warn("warning: failed to show notification: "@ + e),
            ],
            action: ActionModel::Finish(result_of(passed)),
        },
    }
}

/// The result of waiting after what the user clicked was done.
pub open spec fn followed_result(passed: bool, done: Result<(), Seq<char>>) -> Result<
    (),
    Seq<char>,
> {
    match done {
        Ok(()) => result_of(passed),
        Err(e) => Err(e),
    }
}

/// The result of waiting.
fn finish(passed: bool) -> (r: Result<(), String>)
    ensures
        text::outcome(r) == result_of(passed),
{
    if passed {
        Ok(())
    } else {
        Err("CI failed".to_owned())
    }
}

/// Goes on after the notification was shown. `clicked` is the key of the clicked action, if any,
/// or the reason why it could not be shown, e.g. that there is no desktop session; the result of
/// CI was already printed.
pub fn notified(passed: bool, url: &str, clicked: Result<Option<String>, String>) -> (step: Step)
    ensures
        step.deep_view() == clicked_step(passed, url@, text::outcome(clicked)),
{
    let mut messages: Vec<Message> = Vec::new();
    assert(messages.deep_view() =~= seq![]);
    match clicked {
        Ok(Some(key)) => {
            let action = if text::same(key.as_str(), "merge") {
                Action::Merge(passed)
            } else if text::same(key.as_str(), "open") {
                let command = process::command("xdg-open", &[url]);
                assert(command.deep_view().args =~= seq![url@]);
                Action::Open(passed, command)
            } else {
                Action::Finish(finish(passed))
            };
            Step { messages, action }
        },
        Ok(None) => Step { messages, action: Action::Finish(finish(passed)) },
        Err(e) => {
            let message = Message::Warn(
                text::join2("warning: failed to show notification: ", e.as_str()),
            );
            let ghost said = message.deep_view();
            messages.push(message);
            assert(messages.deep_view() =~= seq![said]);
            Step { messages, action: Action::Finish(finish(passed)) }
        },
    }
}

/// The result of waiting after the pull request was merged or opened, with the result `done`.
pub fn followed(passed: bool, done: Result<(), String>) -> (r: Result<(), String>)
    ensures
        text::outcome(r) == followed_result(passed, text::outcome(done)),
{
    match done {
        Ok(()) => finish(passed),
        Err(e) => Err(e),
    }
}

// ---------------------------------------------------------------------------
// Laws
// ---------------------------------------------------------------------------

/// A look at the pull request: what was fetched, and when.
pub struct Look {
    pub fetched: Result<pull_request::PrInfoModel, Seq<char>>,
    pub at: u128,
}

/// What is known of the pull request after a first look and the looks `looks`.
pub open spec fn watched(
    first: pull_request::PrInfoModel,
    at: u128,
    looks: Seq<Look>,
) -> WaitingModel
    decreases looks.len(),
{
    if looks.len() == 0 {
        WaitingModel { pr: first, head_since: at }
    } else {
        updated(watched(first, at, looks.drop_last()), looks.last().fetched, looks.last().at)
    }
}

/// Whether all of `looks` failed or saw the head commit `oid`.
pub open spec fn saw_only(looks: Seq<Look>, oid: Seq<char>) -> bool {
    forall|i: int|
        0 <= i < looks.len() ==> ((#[trigger] looks[i]).fetched matches Ok(pr) ==> pr.head_oid
            == oid)
}

/// Whether the head commit `oid` was first seen in look `k`, at `at`, and stayed since.
pub open spec fn head_came(
    first: pull_request::PrInfoModel,
    first_at: u128,
    looks: Seq<Look>,
    oid: Seq<char>,
    k: int,
    at: u128,
) -> bool {
    &&& 0 <= k < looks.len()
    &&& looks[k].at == at
    &&& looks[k].fetched is Ok
    &&& saw_only(looks.skip(k), oid)
    &&& watched(first, first_at, looks.take(k)).pr.head_oid != oid
}

/// What is known of a pull request is what the last look that did not fail saw.
pub proof fn law_the_latest_look_counts(
    first: pull_request::PrInfoModel,
    at: u128,
    looks: Seq<Look>,
    k: int,
)
    requires
        -1 <= k < looks.len(),
        k >= 0 ==> looks[k].fetched is Ok,
        forall|i: int| k < i < looks.len() ==> (#[trigger] looks[i]).fetched is Err,
    ensures
        watched(first, at, looks).pr == if k >= 0 {
            looks[k].fetched->Ok_0
        } else {
            first
        },
    decreases looks.len(),
{
    if looks.len() > k + 1 {
        assert(looks.last().fetched is Err);
        law_the_latest_look_counts(first, at, looks.drop_last(), k);
    }
}

/// A head commit is waited for since it was first seen: a force push starts the time anew, and
/// nothing else does.
pub proof fn law_heads_are_waited_for_since_they_came(
    first: pull_request::PrInfoModel,
    at: u128,
    looks: Seq<Look>,
)
    ensures
        ({
            let waiting = watched(first, at, looks);
            let oid = waiting.pr.head_oid;
            ||| saw_only(looks, oid) && first.head_oid == oid && waiting.head_since == at
            ||| exists|k: int| head_came(first, at, looks, oid, k, waiting.head_since)
        }),
    decreases looks.len(),
{
    if looks.len() > 0 {
        let rest = looks.drop_last();
        law_heads_are_waited_for_since_they_came(first, at, rest);
        let before = watched(first, at, rest);
        let waiting = watched(first, at, looks);
        let oid = waiting.pr.head_oid;
        let last = looks.len() - 1;
        if before.pr.head_oid != oid {
            assert(looks.take(last) =~= rest);
            assert(saw_only(looks.skip(last), oid));
            assert(head_came(first, at, looks, oid, last, waiting.head_since));
        } else if saw_only(rest, oid) && first.head_oid == oid && before.head_since == at {
            assert forall|i: int| 0 <= i < looks.len() implies ((
            #[trigger] looks[i]).fetched matches Ok(pr) ==> pr.head_oid == oid) by {
                if i < last {
                    assert(rest[i] == looks[i]);
                }
            }
        } else {
            let k = choose|k: int| head_came(first, at, rest, oid, k, before.head_since);
            assert(looks.take(k) =~= rest.take(k));
            assert forall|i: int| 0 <= i < looks.skip(k).len() implies ((
            #[trigger] looks.skip(k)[i]).fetched matches Ok(pr) ==> pr.head_oid == oid) by {
                if k + i < last {
                    assert(rest.skip(k)[i] == looks[k + i]);
                }
            }
            assert(head_came(first, at, looks, oid, k, waiting.head_since));
        }
    }
}

/// Waiting ends without a result of CI only if the pull request has no checks, and its head
/// commit has been there for longer than the grace period.
pub proof fn law_only_missing_checks_end_waiting(
    first: pull_request::PrInfoModel,
    at: u128,
    looks: Seq<Look>,
    said: Seq<process::MessageModel>,
    now: u128,
)
    ensures
        ({
            let waiting = watched(first, at, looks);
            looked(said, waiting, now).action is Finish <==> waiting.pr.ci == CiStatus::NoChecks
                && now - waiting.head_since > NO_CHECKS_GRACE
        }),
{
}

/// A head commit that was just pushed is given time to get checks.
pub proof fn law_new_heads_are_given_time(
    waiting: WaitingModel,
    pr: pull_request::PrInfoModel,
    now: u128,
)
    requires
        pr.head_oid != waiting.pr.head_oid,
    ensures
        observed(waiting, Ok(pr), now).action == if is_over(pr.ci) {
            ActionModel::Notify(pr.ci == CiStatus::Success, verdict(pr))
        } else {
            ActionModel::Poll(WaitingModel { pr, head_since: now })
        },
{
}

/// A pull request whose CI runs is waited for, however long it takes.
pub proof fn law_running_ci_is_waited_for(
    waiting: WaitingModel,
    said: Seq<process::MessageModel>,
    now: u128,
)
    requires
        waiting.pr.ci == CiStatus::Running,
    ensures
        looked(said, waiting, now) == (StepModel {
            messages: said,
            action: ActionModel::Poll(waiting),
        }),
{
}

/// A look that fails changes nothing that is known, and the user is warned.
pub proof fn law_failed_looks_are_retried(waiting: WaitingModel, e: Seq<char>, now: u128)
    requires
        waiting.pr.ci == CiStatus::Running || (waiting.pr.ci == CiStatus::NoChecks && now
            - waiting.head_since <= NO_CHECKS_GRACE),
    ensures
        observed(waiting, Err(e), now) == (StepModel {
            messages: seq![process::MessageModel::Warn("warning: "@ + e + ", retrying"@)],
            action: ActionModel::Poll(waiting),
        }),
{
}

/// Waiting succeeds exactly if CI passed and what the user clicked could be done; and only a pull
/// request that passed is offered to be merged.
pub proof fn law_success_means_that_ci_passed(
    waiting: WaitingModel,
    said: Seq<process::MessageModel>,
    now: u128,
    url: Seq<char>,
    clicked: Result<Option<Seq<char>>, Seq<char>>,
    done: Result<(), Seq<char>>,
)
    requires
        is_over(waiting.pr.ci),
    ensures
        looked(said, waiting, now).action matches ActionModel::Notify(passed, n) && {
            &&& passed == (waiting.pr.ci == CiStatus::Success)
            &&& passed == n.actions.contains(("merge"@, "Merge"@))
            &&& n.actions.contains(("open"@, "Open"@))
            &&& clicked_step(passed, url, clicked).action matches ActionModel::Finish(r) ==> (r
                is Ok <==> waiting.pr.ci == CiStatus::Success)
            &&& clicked_step(passed, url, clicked).action matches ActionModel::Merge(p) ==> p
                == passed
            &&& clicked_step(passed, url, clicked).action matches ActionModel::Open(p, _) ==> p
                == passed
            &&& followed_result(passed, done) is Ok <==> waiting.pr.ci == CiStatus::Success
                && done is Ok
        },
{
    reveal_strlit("merge");
    reveal_strlit("open");
    let actions = verdict(waiting.pr).actions;
    assert("merge"@.len() != "open"@.len());
    if waiting.pr.ci == CiStatus::Success {
        assert(actions[0] == ("merge"@, "Merge"@));
        assert(actions[1] == ("open"@, "Open"@));
    } else {
        assert(actions[0] == ("open"@, "Open"@));
    }
}

/// A click on a button is followed, whether CI passed or not: "merge" merges the pull request, and
/// "open" opens its URL. Nothing else is done for no click, another key or a notification that
/// could not be shown.
pub proof fn law_clicks_are_followed(
    passed: bool,
    url: Seq<char>,
    clicked: Result<Option<Seq<char>>, Seq<char>>,
)
    ensures
        ({
            let step = clicked_step(passed, url, clicked);
            &&& clicked == Ok::<Option<Seq<char>>, Seq<char>>(Some("merge"@)) <==> step.action
                is Merge
            &&& step.action matches ActionModel::Merge(p) ==> p == passed
            &&& clicked == Ok::<Option<Seq<char>>, Seq<char>>(Some("open"@)) <==> step.action
                is Open
            &&& step.action matches ActionModel::Open(p, c) ==> p == passed && c.program
                == "xdg-open"@ && c.args == seq![url]
            &&& !(step.action is Merge) && !(step.action is Open) ==> step.action is Finish
            &&& step.action matches ActionModel::Finish(r) ==> (passed ==> r is Ok) && (!passed
                ==> r == Err::<(), Seq<char>>("CI failed"@))
        }),
{
    reveal_strlit("merge");
    reveal_strlit("open");
    assert("merge"@.len() != "open"@.len());
}

/// A click is followed without a word; only a notification that could not be shown is told, with
/// the reason.
pub proof fn law_unshown_notifications_are_told(
    passed: bool,
    url: Seq<char>,
    clicked: Result<Option<Seq<char>>, Seq<char>>,
)
    ensures
        clicked is Ok ==> clicked_step(passed, url, clicked).messages.len() == 0,
        clicked matches Err(e) ==> clicked_step(passed, url, clicked).messages == seq![
            process::MessageModel::Warn("warning: failed to show notification: "@ + e),
        ],
{
}

/// What was clicked decides the result only if it failed; else CI does.
pub proof fn law_the_follow_up_can_only_fail(passed: bool, done: Result<(), Seq<char>>)
    ensures
        done matches Err(e) ==> followed_result(passed, done) == Err::<(), Seq<char>>(e),
        done is Ok && passed ==> followed_result(passed, done) is Ok,
        done is Ok && !passed ==> followed_result(passed, done) == Err::<(), Seq<char>>(
            "CI failed"@,
        ),
{
}

/// When CI is over, the notification says so, with its result and the pull request's repository
/// and title, and the result is printed after all else.
pub proof fn law_the_result_is_told(
    said: Seq<process::MessageModel>,
    waiting: WaitingModel,
    now: u128,
)
    requires
        waiting.pr.ci is Success || waiting.pr.ci is Failure,
    ensures
        ({
            let step = looked(said, waiting, now);
            let passed = waiting.pr.ci is Success;
            &&& step.messages.len() == said.len() + 1
            &&& said.is_prefix_of(step.messages)
            &&& passed ==> step.messages.last() == process::MessageModel::Print(
                CiStatus::Success.icon_text() + seq![' '] + "CI passed"@,
            )
            &&& !passed ==> step.messages.last() == process::MessageModel::Print(
                CiStatus::Failure.icon_text() + seq![' '] + "CI failed"@,
            )
            &&& step.action matches ActionModel::Notify(p, n) && p == passed && n.body
                == waiting.pr.repo + seq![':', ' '] + waiting.pr.title && (passed ==> n.summary
                == "CI passed"@ && n.icon == "emblem-success"@ && n.actions == seq![
                ("merge"@, "Merge"@),
                ("open"@, "Open"@),
            ]) && (!passed ==> n.summary == "CI failed"@ && n.icon == "dialog-error"@ && n.actions
                == seq![("open"@, "Open"@)])
        }),
{
    reveal_strlit(" ");
    reveal_strlit(": ");
    assert(" "@ =~= seq![' ']);
    assert(": "@ =~= seq![':', ' ']);
    assert(looked(said, waiting, now).messages.take(said.len() as int) =~= said);
}

/// While CI is not over, nothing is told, and the next look is waited for, unless there have been
/// no checks for more than five minutes.
pub proof fn law_waiting_is_silent(
    said: Seq<process::MessageModel>,
    waiting: WaitingModel,
    now: u128,
)
    requires
        waiting.pr.ci is Running || waiting.pr.ci is NoChecks,
    ensures
        looked(said, waiting, now).messages == said,
        looked(said, waiting, now).action == if waiting.pr.ci is NoChecks && now
            - waiting.head_since > 300_000_000_000 {
            ActionModel::Finish(Err("PR has no CI checks"@))
        } else {
            ActionModel::Poll(waiting)
        },
{
}

/// Waiting begins with a look at the pull request, which is named; one that cannot be fetched ends
/// it at once with the reason.
pub proof fn law_waiting_begins_with_a_look(
    fetched: Result<pull_request::PrInfoModel, Seq<char>>,
    now: u128,
)
    ensures
        fetched matches Err(e) ==> started(fetched, now) == (StepModel {
            messages: seq![],
            action: ActionModel::Finish(Err(e)),
        }),
        fetched matches Ok(pr) ==> started(fetched, now) == looked(
            seq![
                process::MessageModel::Print("Waiting for CI of "@ + pr.repo + ": "@ + pr.title),
            ],
            WaitingModel { pr, head_since: now },
            now,
        ),
{
}

/// Each further look is one at what was fetched; a new head commit is waited for from now on, a
/// known one as before; and only a failed look is told.
pub proof fn law_each_look_is_at_the_current_head(
    waiting: WaitingModel,
    fetched: Result<pull_request::PrInfoModel, Seq<char>>,
    now: u128,
)
    ensures
        fetched matches Ok(pr) ==> observed(waiting, fetched, now) == looked(
            seq![],
            WaitingModel {
                pr,
                head_since: if pr.head_oid == waiting.pr.head_oid {
                    waiting.head_since
                } else {
                    now
                },
            },
            now,
        ),
        fetched matches Err(e) ==> observed(waiting, fetched, now) == looked(
            seq![process::MessageModel::Warn("warning: "@ + e + ", retrying"@)],
            waiting,
            now,
        ),
{
}

/// The models show every field.
pub proof fn law_models_show_every_field(w: Waiting, s: Step)
    ensures
        w.deep_view().pr == w.pr.deep_view(),
        w.deep_view().head_since == w.head_since,
        s.deep_view().messages.len() == s.messages@.len(),
        forall|i: int|
            0 <= i < s.messages@.len() ==> #[trigger] s.deep_view().messages[i]
                == s.messages@[i].deep_view(),
        match s.action {
            Action::Poll(w) => s.deep_view().action == ActionModel::Poll(w.deep_view()),
            Action::Notify(p, n) => s.deep_view().action == ActionModel::Notify(p, n.deep_view()),
            Action::Merge(p) => s.deep_view().action == ActionModel::Merge(p),
            Action::Open(p, c) => s.deep_view().action == ActionModel::Open(p, c.deep_view()),
            Action::Finish(Ok(())) => s.deep_view().action == ActionModel::Finish(Ok(())),
            Action::Finish(Err(e)) => s.deep_view().action == ActionModel::Finish(Err(e@)),
        },
{
}

} // verus!
