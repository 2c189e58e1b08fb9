//! Waiting for the CI of a pull request.

use gh_wrapper::ci::CiStatus;
use gh_wrapper::process::{Command, Message};
use gh_wrapper::pull_request::PrInfo;
use gh_wrapper::wait::{
    followed, notified, observe, wait_pr, Action, Step, Waiting, NO_CHECKS_GRACE, POLL_INTERVAL,
};

fn info(ci: CiStatus, oid: &str) -> PrInfo {
    PrInfo {
        ci,
        title: "a title".into(),
        repo: "o/r".into(),
        head_branch: "feat".into(),
        head_oid: oid.into(),
        head_repo: Some("o/r".into()),
    }
}

fn waiting(ci: CiStatus, oid: &str, head_since: u128) -> Waiting {
    Waiting { pr: info(ci, oid), head_since }
}

fn poll(messages: Vec<Message>, w: Waiting) -> Step {
    Step { messages, action: Action::Poll(w) }
}

fn finish(messages: Vec<Message>, result: Result<(), String>) -> Step {
    Step { messages, action: Action::Finish(result) }
}

fn print(s: &str) -> Message {
    Message::Print(s.to_string())
}

fn warn(s: &str) -> Message {
    Message::Warn(s.to_string())
}

fn error(s: &str) -> Result<(), String> {
    Err(s.to_string())
}

#[test]
fn the_times_are_thirty_seconds_and_five_minutes() {
    assert_eq!(POLL_INTERVAL, 30);
    assert_eq!(NO_CHECKS_GRACE, std::time::Duration::from_secs(5 * 60).as_nanos());
}

#[test]
fn a_bad_url_fails_at_once() {
    assert_eq!(
        wait_pr(Err("not a pull request URL".to_string()), 5),
        finish(vec![], error("not a pull request URL"))
    );
}

#[test]
fn running_ci_is_polled() {
    assert_eq!(
        wait_pr(Ok(info(CiStatus::Running, "a")), 5),
        poll(
            vec![print("Waiting for CI of o/r: a title")],
            waiting(CiStatus::Running, "a", 5)
        )
    );
    // However long it takes.
    assert_eq!(
        observe(
            waiting(CiStatus::Running, "a", 5),
            Ok(info(CiStatus::Running, "a")),
            u128::MAX
        ),
        poll(vec![], waiting(CiStatus::Running, "a", 5))
    );
}

#[test]
fn a_pull_request_that_passed_can_be_merged_or_opened() {
    let step = observe(
        waiting(CiStatus::Running, "a", 5),
        Ok(info(CiStatus::Success, "a")),
        6,
    );
    assert_eq!(step.messages, [print("🟢 CI passed")]);
    let Action::Notify(passed, n) = step.action else {
        panic!("no notification")
    };
    assert!(passed);
    assert_eq!(n.summary, "CI passed");
    assert_eq!(n.body, "o/r: a title");
    assert_eq!(n.icon, "emblem-success");
    assert_eq!(
        n.actions,
        [
            ("merge".to_string(), "Merge".to_string()),
            ("open".to_string(), "Open".to_string())
        ]
    );
}

#[test]
fn a_pull_request_that_failed_can_only_be_opened() {
    let step = wait_pr(Ok(info(CiStatus::Failure, "a")), 6);
    assert_eq!(
        step.messages,
        [print("Waiting for CI of o/r: a title"), print("🔴 CI failed")]
    );
    let Action::Notify(passed, n) = step.action else {
        panic!("no notification")
    };
    assert!(!passed);
    assert_eq!(n.summary, "CI failed");
    assert_eq!(n.icon, "dialog-error");
    assert_eq!(n.actions, [("open".to_string(), "Open".to_string())]);
}

#[test]
fn missing_checks_are_waited_for_during_the_grace_period() {
    let w = || waiting(CiStatus::NoChecks, "a", 1000);
    let fetched = || Ok(info(CiStatus::NoChecks, "a"));
    assert_eq!(
        observe(w(), fetched(), 1000 + NO_CHECKS_GRACE),
        poll(vec![], w())
    );
    assert_eq!(
        observe(w(), fetched(), 1001 + NO_CHECKS_GRACE),
        finish(vec![], error("PR has no CI checks"))
    );
    // A clock that goes back does no harm.
    assert_eq!(observe(w(), fetched(), 0), poll(vec![], w()));
}

#[test]
fn a_force_push_starts_the_grace_period_anew() {
    let late = 1001 + NO_CHECKS_GRACE;
    assert_eq!(
        observe(
            waiting(CiStatus::NoChecks, "a", 1000),
            Ok(info(CiStatus::NoChecks, "b")),
            late
        ),
        poll(vec![], waiting(CiStatus::NoChecks, "b", late))
    );
}

#[test]
fn failed_looks_are_retried() {
    assert_eq!(
        observe(
            waiting(CiStatus::Running, "a", 5),
            Err("failed to run gh: x".to_string()),
            9
        ),
        poll(
            vec![warn("warning: failed to run gh: x, retrying")],
            waiting(CiStatus::Running, "a", 5)
        )
    );
    // The grace period goes on meanwhile.
    assert_eq!(
        observe(
            waiting(CiStatus::NoChecks, "a", 5),
            Err("e".to_string()),
            6 + NO_CHECKS_GRACE
        ),
        finish(
            vec![warn("warning: e, retrying")],
            error("PR has no CI checks")
        )
    );
}

#[test]
fn clicks_are_followed() {
    let click = |key: &str| notified(true, "https://a/1", Ok(Some(key.to_string())));
    assert_eq!(click("merge"), Step { messages: vec![], action: Action::Merge(true) });
    assert_eq!(
        click("open"),
        Step {
            messages: vec![],
            action: Action::Open(true, Command {
                program: "xdg-open".to_string(),
                args: vec!["https://a/1".to_string()],
            }),
        }
    );
    assert_eq!(click("default"), finish(vec![], Ok(())));
}

#[test]
fn without_a_click_the_result_is_that_of_ci() {
    assert_eq!(notified(true, "u", Ok(None)), finish(vec![], Ok(())));
    assert_eq!(notified(false, "u", Ok(None)), finish(vec![], error("CI failed")));
    assert_eq!(
        notified(false, "u", Ok(Some("x".to_string()))),
        finish(vec![], error("CI failed"))
    );
    assert_eq!(
        notified(true, "u", Err("no bus".to_string())),
        finish(
            vec![warn("warning: failed to show notification: no bus")],
            Ok(())
        )
    );
}

#[test]
fn success_means_that_ci_passed_and_the_click_was_done() {
    assert_eq!(followed(true, Ok(())), Ok(()));
    assert_eq!(followed(false, Ok(())), error("CI failed"));
    assert_eq!(followed(true, error("x")), error("x"));
    assert_eq!(followed(false, error("x")), error("x"));
}
