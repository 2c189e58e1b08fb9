//! Merging, rebasing, running again and opening pull requests.

use gh_wrapper::ci::CiStatus;
use gh_wrapper::create::{check_pr_branch, create_pr};
use gh_wrapper::merge::{
    branch_deleted, delete_remote_branch, merge_pr, merged, rebase_pr, rebased, RemoteBranch,
};
use gh_wrapper::process::{check_status, run, Command, CommandOutput, Message};
use gh_wrapper::pull_request::PrInfo;
use gh_wrapper::rerun::{rerun, rerun_pr, Rerun};

fn command(program: &str, args: &[&str]) -> Command {
    Command {
        program: program.to_string(),
        args: args.iter().map(|a| a.to_string()).collect(),
    }
}

fn text(s: &str) -> String {
    s.to_string()
}

// ---------------------------------------------------------------------------
// Programs
// ---------------------------------------------------------------------------

#[test]
fn failed_commands_are_shown_with_their_arguments() {
    let c = command("git", &["push", "--force"]);
    assert_eq!(run(&c, Ok(true)), Ok(()));
    assert_eq!(run(&c, Ok(false)), Err(text("`git push --force` failed")));
    assert_eq!(run(&c, Err(text("gone"))), Err(text("failed to run git: gone")));
    assert_eq!(run(&command("x", &[]), Ok(false)), Err(text("`x ` failed")));
    assert_eq!(check_status("gh", "no", Ok(false)), Err(text("no")));
}

// ---------------------------------------------------------------------------
// Merging and rebasing
// ---------------------------------------------------------------------------

fn info(ci: CiStatus, head_repo: Option<&str>) -> Result<PrInfo, String> {
    Ok(PrInfo {
        ci,
        title: "t".into(),
        repo: "o/r".into(),
        head_branch: "feat/x".into(),
        head_oid: "abc123".into(),
        head_repo: head_repo.map(Into::into),
    })
}

#[test]
fn only_what_passed_is_merged() {
    let merge = merge_pr("https://a/1", info(CiStatus::Success, Some("me/r"))).unwrap();
    assert_eq!(
        merge.command,
        command(
            "gh",
            &["pr", "merge", "https://a/1", "--rebase", "--match-head-commit", "abc123"]
        )
    );
    let error = |ci| merge_pr("u", info(ci, None)).unwrap_err();
    assert_eq!(error(CiStatus::Failure), "CI failed, not merging");
    assert_eq!(error(CiStatus::Running), "CI is still running, not merging");
    assert_eq!(error(CiStatus::NoChecks), "PR has no CI checks, not merging");
    assert_eq!(merge_pr("u", Err(text("e"))), Err(text("e")));
}

#[test]
fn the_head_branch_goes_after_the_merge() {
    let merge = || merge_pr("u", info(CiStatus::Success, Some("me/r"))).unwrap();
    let branch = merged(merge(), Ok(true)).unwrap().unwrap();
    assert_eq!(
        delete_remote_branch(&branch),
        command("gh", &["api", "-X", "DELETE", "repos/me/r/git/refs/heads/feat/x"])
    );
    assert_eq!(merged(merge(), Ok(false)), Err(text("`gh pr merge` failed")));
    assert_eq!(merged(merge(), Err(text("e"))), Err(text("failed to run gh: e")));
    let without = merge_pr("u", info(CiStatus::Success, None)).unwrap();
    assert_eq!(merged(without, Ok(true)), Ok(None));
}

#[test]
fn deleting_a_branch_can_only_warn() {
    let branch = RemoteBranch { repo: text("me/r"), branch: text("feat") };
    let after = |success: bool, stdout: &[u8], stderr: &[u8]| {
        branch_deleted(
            &branch,
            Ok(CommandOutput { success, stdout: stdout.to_vec(), stderr: stderr.to_vec() }),
        )
    };
    assert_eq!(
        after(true, b"", b"x"),
        Some(Message::Print(text("Deleted remote branch me/r:feat")))
    );
    assert_eq!(after(false, b"{\"message\":\"Reference does not exist\"}", b""), None);
    assert_eq!(after(false, b"", b"gh: Reference does not exist (HTTP 422)\n"), None);
    assert_eq!(
        after(false, b"Not Found", b" gh: \xffNot Found \n"),
        Some(Message::Warn(text(
            "warning: failed to delete remote branch me/r:feat: gh: \u{fffd}Not Found"
        )))
    );
    assert_eq!(
        branch_deleted(&branch, Err(text("e"))),
        Some(Message::Warn(text("warning: failed to run gh: e")))
    );
}

#[test]
fn rebasing_happens_on_the_server() {
    assert_eq!(
        rebase_pr("https://a/1"),
        command("gh", &["pr", "update-branch", "https://a/1", "--rebase"])
    );
    assert_eq!(rebased(Ok(true)), Ok(()));
    assert_eq!(rebased(Ok(false)), Err(text("`gh pr update-branch` failed")));
    assert_eq!(rebased(Err(text("e"))), Err(text("failed to run gh: e")));
}

// ---------------------------------------------------------------------------
// Running again
// ---------------------------------------------------------------------------

#[test]
fn a_url_says_what_to_run_again() {
    assert_eq!(
        rerun("https://github.com/o/r/pull/1/checks"),
        Ok(Rerun::PullRequest {
            repo: text("github.com/o/r"),
            url: text("https://github.com/o/r/pull/1"),
        })
    );
    assert_eq!(
        rerun("https://github.com/o/r/actions/runs/1/job/2"),
        Ok(Rerun::Run(command(
            "gh",
            &["run", "rerun", "--job", "2", "-R", "github.com/o/r"]
        )))
    );
    assert_eq!(
        rerun("https://github.com/o/r/actions/runs/1"),
        Ok(Rerun::Run(command(
            "gh",
            &["run", "rerun", "1", "--failed", "-R", "github.com/o/r"]
        )))
    );
    assert_eq!(
        rerun("https://x"),
        Err(text("not a pull request or GitHub Actions run or job URL: https://x"))
    );
}

#[test]
fn every_run_is_tried_and_failures_are_counted() {
    let statuses = [Ok(true), Ok(false), Err(text("gone")), Ok(true)];
    let ids = vec![10, 0, u64::MAX, 7];
    let mut reruns = rerun_pr("h/o/r", Ok(ids)).unwrap();
    let mut tried = Vec::new();
    let mut said = Vec::new();
    for status in statuses {
        tried.push(reruns.next_command().unwrap().args[2].clone());
        let (next, message) = reruns.report(status);
        reruns = next;
        said.push(message);
    }
    assert_eq!(tried, ["10", "0", "18446744073709551615", "7"]);
    assert_eq!(
        said,
        [
            None,
            Some(Message::Warn(text(
                "error: `gh run rerun 0 --failed -R h/o/r` failed"
            ))),
            Some(Message::Warn(text("error: failed to run gh: gone"))),
            None,
        ]
    );
    assert_eq!(reruns.next_command(), None);
    assert_eq!(reruns.result(), Err(text("2 of 4 runs failed to rerun")));
}

#[test]
fn running_again_succeeds_if_every_run_does() {
    let reruns = rerun_pr("h/o/r", Ok(vec![5])).unwrap();
    assert_eq!(
        reruns.next_command(),
        Some(&command("gh", &["run", "rerun", "5", "--failed", "-R", "h/o/r"]))
    );
    let (reruns, message) = reruns.report(Ok(true));
    assert_eq!(message, None);
    assert_eq!(reruns.result(), Ok(()));
}

#[test]
fn there_may_be_nothing_to_run_again() {
    assert_eq!(
        rerun_pr("r", Ok(vec![])),
        Err(text("no failed or cancelled Actions jobs to rerun"))
    );
    assert_eq!(rerun_pr("r", Err(text("e"))), Err(text("e")));
}

// ---------------------------------------------------------------------------
// Opening pull requests
// ---------------------------------------------------------------------------

#[test]
fn check_pr_branch_rejects_main_and_master() {
    assert!(check_pr_branch("main").is_err());
    assert!(check_pr_branch("master").is_err());
    assert!(check_pr_branch("feature").is_ok());
}

#[test]
fn protected_branches_are_never_pushed() {
    assert_eq!(check_pr_branch("main"), Err(text("refusing to force push main")));
    assert_eq!(create_pr("main"), Err(text("refusing to force push main")));
    assert_eq!(create_pr("master"), Err(text("refusing to force push master")));
    assert!(create_pr("mainly").is_ok());
    assert!(create_pr("Main").is_ok());
}

#[test]
fn a_local_branch_is_pushed_and_opened() {
    let branch = create_pr("feat/x").unwrap();
    assert_eq!(
        branch.verify_command(),
        command("git", &["rev-parse", "--verify", "--quiet", "refs/heads/feat/x"])
    );
    assert_eq!(
        branch.verified(Ok(true)),
        Ok(command("git", &["push", "--force", "origin", "feat/x"]))
    );
    assert_eq!(
        branch.pushed(Ok(true)),
        Ok(command("gh", &["pr", "create", "--head", "feat/x", "--fill"]))
    );
    assert_eq!(branch.created(Ok(true)), Ok(()));
}

#[test]
fn opening_stops_at_the_first_failure() {
    let branch = create_pr("feat/x").unwrap();
    let not_local = Err(text("feat/x is not a local branch"));
    assert_eq!(branch.verified(Ok(false)), not_local);
    assert_eq!(branch.verified(Err(text("no git"))), not_local);
    assert_eq!(
        branch.pushed(Ok(false)),
        Err(text("`git push --force origin feat/x` failed"))
    );
    assert_eq!(branch.pushed(Err(text("e"))), Err(text("failed to run git: e")));
    assert_eq!(
        branch.created(Ok(false)),
        Err(text("`gh pr create --head feat/x --fill` failed"))
    );
    assert_eq!(branch.created(Err(text("e"))), Err(text("failed to run gh: e")));
}
