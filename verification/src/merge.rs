//! Merging and rebasing a pull request.

use vstd::prelude::*;
use vstd::string::*;

use crate::ci::CiStatus;
use crate::process;
use crate::process::{Command, CommandOutput, Message};
use crate::pull_request;
use crate::pull_request::PrInfo;
use crate::text;

verus! {

/// A branch of a repository on the server.
#[derive(Debug, PartialEq)]
pub struct RemoteBranch {
    pub repo: String,
    pub branch: String,
}

/// The model of a `RemoteBranch`.
pub struct RemoteBranchModel {
    pub repo: Seq<char>,
    pub branch: Seq<char>,
}

impl DeepView for RemoteBranch {
    type V = RemoteBranchModel;

    open spec fn deep_view(&self) -> RemoteBranchModel {
        RemoteBranchModel { repo: self.repo@, branch: self.branch@ }
    }
}

/// A merge to be done.
#[derive(Debug, PartialEq)]
pub struct Merge {
    /// Merges the pull request.
    pub command: Command,
    /// The head branch, which goes once the pull request is merged.
    pub head: Option<RemoteBranch>,
}

/// The model of a `Merge`.
pub struct MergeModel {
    pub command: process::CommandModel,
    pub head: Option<RemoteBranchModel>,
}

impl DeepView for Merge {
    type V = MergeModel;

    open spec fn deep_view(&self) -> MergeModel {
        MergeModel { command: self.command.deep_view(), head: self.head.deep_view() }
    }
}

/// The command that merges the pull request at `url` if its head commit is `oid`.
pub open spec fn merge_args(url: Seq<char>, oid: Seq<char>) -> process::CommandModel {
    process::CommandModel {
        program: "gh"@,
        args: seq!["pr"@, "merge"@, url, "--rebase"@, "--match-head-commit"@, oid],
    }
}

/// The head branch of a pull request, unless its repository was deleted.
pub open spec fn head_of(pr: pull_request::PrInfoModel) -> Option<RemoteBranchModel> {
    match pr.head_repo {
        Some(repo) => Some(RemoteBranchModel { repo, branch: pr.head_branch }),
        None => None,
    }
}

/// How to merge a pull request whose CI passed, or why not to.
pub open spec fn merge_of(
    url: Seq<char>,
    fetched: Result<pull_request::PrInfoModel, Seq<char>>,
) -> Result<MergeModel, Seq<char>> {
    match fetched {
        Ok(pr) => match pr.ci {
            CiStatus::Success => Ok(
                MergeModel { command: merge_args(url, pr.head_oid), head: head_of(pr) },
            ),
            CiStatus::Failure => Err("CI failed, not merging"@),
            CiStatus::Running => Err("CI is still running, not merging"@),
            CiStatus::NoChecks => Err("PR has no CI checks, not merging"@),
        },
        Err(e) => Err(e),
    }
}

/// Decides whether to merge the pull request at `url`, and how. `fetched` is the pull request, or
/// the reason why it is not known.
///
/// Passing a merge method makes gh non-interactive. --delete-branch isn't used because it also
/// deletes the local branch; the remote one is deleted once the pull request is merged instead,
/// see `merged`. --match-head-commit refuses the merge if someone pushed after the CI check.
pub fn merge_pr(url: &str, fetched: Result<PrInfo, String>) -> (merge: Result<Merge, String>)
    ensures
        text::outcome(merge) == merge_of(url@, text::outcome(fetched)),
{
    match fetched {
        Ok(pr) => match pr.ci {
            CiStatus::Success => {
                let command = process::command(
                    "gh",
                    &["pr", "merge", url, "--rebase", "--match-head-commit", pr.head_oid.as_str()],
                );
                assert(command.deep_view().args =~= merge_args(url@, pr.head_oid@).args);
                let head = match pr.head_repo {
                    Some(repo) => Some(RemoteBranch { repo, branch: pr.head_branch }),
                    None => None,
                };
                Ok(Merge { command, head })
            },
            CiStatus::Failure => Err("CI failed, not merging".to_owned()),
            CiStatus::Running => Err("CI is still running, not merging".to_owned()),
            CiStatus::NoChecks => Err("PR has no CI checks, not merging".to_owned()),
        },
        Err(e) => Err(e),
    }
}

/// What the end of a merge leaves to be done: the branch to delete, if any, or the error of the
/// merge.
pub open spec fn left_over(head: Option<RemoteBranchModel>, status: Result<bool, Seq<char>>) -> Result<
    Option<RemoteBranchModel>,
    Seq<char>,
> {
    match process::status_result("gh"@, "`gh pr merge` failed"@, status) {
        Ok(()) => Ok(head),
        Err(e) => Err(e),
    }
}

/// Goes on after the command of `merge` was run: returns the branch to delete, if any, see
/// `delete_remote_branch`.
pub fn merged(merge: Merge, status: Result<bool, String>) -> (branch: Result<
    Option<RemoteBranch>,
    String,
>)
    ensures
        text::outcome(branch) == left_over(merge.deep_view().head, text::outcome(status)),
{
    match process::check_status("gh", "`gh pr merge` failed", status) {
        Ok(()) => Ok(merge.head),
        Err(e) => Err(e),
    }
}

// ---------------------------------------------------------------------------
// Deleting the head branch
// ---------------------------------------------------------------------------

/// The command that deletes a branch on the server.
pub open spec fn delete_args(b: RemoteBranchModel) -> process::CommandModel {
    process::CommandModel {
        program: "gh"@,
        args: seq![
            "api"@,
            "-X"@,
            "DELETE"@,
            "repos/"@ + b.repo + "/git/refs/heads/"@ + b.branch,
        ],
    }
}

/// Whether what `gh` printed says that the branch was gone. The repo's "automatically delete head
/// branches" setting may have beaten us to it.
pub open spec fn says_gone(printed: Seq<u8>) -> bool {
    text::occurs(process::printed_text(printed), "Reference does not exist"@)
}

/// What to tell the user about the end of a deletion.
pub open spec fn deletion_message(
    b: RemoteBranchModel,
    output: Result<CommandOutput, String>,
) -> Option<process::MessageModel> {
    match output {
        Ok(o) => if o.success {
            Some(
                process::MessageModel::Print(
                    "Deleted remote branch "@ + b.repo + ":"@ + b.branch,
                ),
            )
        } else if says_gone(o.stdout@) || says_gone(o.stderr@) {
            None
        } else {
            Some(
                process::MessageModel::Warn(
                    "warning: failed to delete remote branch "@ + b.repo + ":"@ + b.branch + ": "@
                        + text::trim(process::printed_text(o.stderr@)),
                ),
            )
        },
        Err(e) => Some(process::MessageModel::Warn("warning: "@ + process::not_run("gh"@, e@))),
    }
}

/// The command that deletes a branch on the server.
pub fn delete_remote_branch(b: &RemoteBranch) -> (c: Command)
    ensures
        c.deep_view() == delete_args(b.deep_view()),
{
    let mut path = text::join3("repos/", b.repo.as_str(), "/git/refs/heads/");
    path.append(b.branch.as_str());
    let c = process::command("gh", &["api", "-X", "DELETE", path.as_str()]);
    assert(c.deep_view().args =~= delete_args(b.deep_view()).args);
    c
}

/// What to tell the user once `delete_remote_branch` was run. Best effort: the PR is already
/// merged, so failures are only warnings.
pub fn branch_deleted(b: &RemoteBranch, output: Result<CommandOutput, String>) -> (m: Option<
    Message,
>)
    ensures
        m.deep_view() == deletion_message(b.deep_view(), output),
{
    match output {
        Ok(o) => {
            if o.success {
                let mut line = text::join3("Deleted remote branch ", b.repo.as_str(), ":");
                line.append(b.branch.as_str());
                return Some(Message::Print(line));
            }
            let stdout = process::from_utf8_lossy(o.stdout.as_slice());
            let stderr = process::from_utf8_lossy(o.stderr.as_slice());
            if text::contains(stdout.as_str(), "Reference does not exist") || text::contains(
                stderr.as_str(),
                "Reference does not exist",
            ) {
                return None;
            }
            let mut line = text::join3(
                "warning: failed to delete remote branch ",
                b.repo.as_str(),
                ":",
            );
            line.append(b.branch.as_str());
            line.append(": ");
            line.append(text::trimmed(stderr.as_str()).as_str());
            Some(Message::Warn(line))
        },
        Err(e) => Some(
            Message::Warn(
                text::join2("warning: ", process::not_run_error("gh", e.as_str()).as_str()),
            ),
        ),
    }
}

// ---------------------------------------------------------------------------
// Rebasing
// ---------------------------------------------------------------------------

/// The command that rebases the pull request at `url`.
pub open spec fn rebase_args(url: Seq<char>) -> process::CommandModel {
    process::CommandModel {
        program: "gh"@,
        args: seq!["pr"@, "update-branch"@, url, "--rebase"@],
    }
}

/// What the end of a rebase means.
pub open spec fn rebase_result(status: Result<bool, Seq<char>>) -> Result<(), Seq<char>> {
    process::status_result("gh"@, "`gh pr update-branch` failed"@, status)
}

/// The command that rebases the pull request at `url`. Server-side rebase onto the latest base
/// branch; no local checkout needed.
pub fn rebase_pr(url: &str) -> (c: Command)
    ensures
        c.deep_view() == (process::CommandModel {
            program: "gh"@,
            args: seq!["pr"@, "update-branch"@, url@, "--rebase"@],
        }),
        c.deep_view() == rebase_args(url@),
{
    let c = process::command("gh", &["pr", "update-branch", url, "--rebase"]);
    assert(c.deep_view().args =~= seq!["pr"@, "update-branch"@, url@, "--rebase"@]);
    c
}

/// The result of rebasing once `rebase_pr` was run.
pub fn rebased(status: Result<bool, String>) -> (r: Result<(), String>)
    ensures
        text::outcome(r) == process::status_result(
            "gh"@,
            "`gh pr update-branch` failed"@,
            text::outcome(status),
        ),
        text::outcome(r) == rebase_result(text::outcome(status)),
{
    process::check_status("gh", "`gh pr update-branch` failed", status)
}

// ---------------------------------------------------------------------------
// Laws
// ---------------------------------------------------------------------------

/// A pull request is merged only if its CI passed, and only the commit that passed.
pub proof fn law_only_what_passed_is_merged(
    url: Seq<char>,
    fetched: Result<pull_request::PrInfoModel, Seq<char>>,
)
    ensures
        merge_of(url, fetched) is Ok <==> (fetched matches Ok(pr) && pr.ci == CiStatus::Success),
        merge_of(url, fetched) matches Ok(merge) ==> {
            &&& fetched matches Ok(pr)
            &&& merge.command.args.skip(merge.command.args.len() - 2) == seq![
                "--match-head-commit"@,
                pr.head_oid,
            ]
        },
{
    if let Ok(merge) = merge_of(url, fetched) {
        assert(merge.command.args.skip(4) =~= seq![
            "--match-head-commit"@,
            fetched->Ok_0.head_oid,
        ]);
    }
}

/// A branch is deleted only once its pull request is merged, and deleting it cannot fail the
/// merge.
pub proof fn law_branches_go_after_the_merge(
    head: Option<RemoteBranchModel>,
    status: Result<bool, Seq<char>>,
)
    ensures
        left_over(head, status) is Ok <==> status == Ok::<bool, Seq<char>>(true),
        left_over(head, status) matches Ok(left) ==> left == head,
{
}

/// A merge is refused with what CI says; one that is done is done by rebasing, for the head commit
/// that was looked at.
pub proof fn law_merges_follow_ci(
    url: Seq<char>,
    fetched: Result<pull_request::PrInfoModel, Seq<char>>,
)
    ensures
        fetched matches Err(e) ==> merge_of(url, fetched) == Err::<MergeModel, Seq<char>>(e),
        fetched matches Ok(pr) ==> {
            &&& pr.ci is Failure ==> merge_of(url, fetched) == Err::<MergeModel, Seq<char>>(
                "CI failed, not merging"@,
            )
            &&& pr.ci is Running ==> merge_of(url, fetched) == Err::<MergeModel, Seq<char>>(
                "CI is still running, not merging"@,
            )
            &&& pr.ci is NoChecks ==> merge_of(url, fetched) == Err::<MergeModel, Seq<char>>(
                "PR has no CI checks, not merging"@,
            )
            &&& pr.ci is Success ==> (merge_of(url, fetched) matches Ok(m) && m.command.program
                == "gh"@ && m.command.args == seq![
                "pr"@,
                "merge"@,
                url,
                "--rebase"@,
                "--match-head-commit"@,
                pr.head_oid,
            ] && (m.head is Some <==> pr.head_repo is Some) && (m.head matches Some(b) ==> b.repo
                == pr.head_repo->0 && b.branch == pr.head_branch))
        },
{
}

/// The branch that is deleted after a merge is the head branch of the pull request, in the
/// repository that the response names as the head's, be it a fork or not; where that is gone,
/// nothing is deleted.
pub proof fn law_the_head_branch_is_deleted(resource: pull_request::Resource, url: Seq<char>)
    requires
        pull_request::info_of(Some(resource)) is Some,
        pull_request::info_of(Some(resource))->0.ci is Success,
    ensures
        ({
            let pr = pull_request::info_of(Some(resource))->0;
            merge_of(url, Ok(pr)) matches Ok(m) && match resource.head_repository {
                Some(r) => {
                    &&& m.head matches Some(b) && delete_args(b).program == "gh"@ && delete_args(
                        b,
                    ).args == seq![
                        "api"@,
                        "-X"@,
                        "DELETE"@,
                        "repos/"@ + r.name_with_owner@ + "/git/refs/heads/"@
                            + resource.head_ref_name->0@,
                    ]
                    &&& left_over(m.head, Ok(true)) == Ok::<
                        Option<RemoteBranchModel>,
                        Seq<char>,
                    >(m.head)
                },
                None => m.head is None,
            }
        }),
{
    pull_request::law_pull_requests_are_read_as_reported(resource);
}

/// A merge that failed or could not be run leaves the branch alone and says why.
pub proof fn law_failed_merges_are_told(
    head: Option<RemoteBranchModel>,
    status: Result<bool, Seq<char>>,
)
    ensures
        status == Ok::<bool, Seq<char>>(true) ==> left_over(head, status) == Ok::<
            Option<RemoteBranchModel>,
            Seq<char>,
        >(head),
        status == Ok::<bool, Seq<char>>(false) ==> left_over(head, status) == Err::<
            Option<RemoteBranchModel>,
            Seq<char>,
        >("`gh pr merge` failed"@),
        status matches Err(e) ==> left_over(head, status) == Err::<
            Option<RemoteBranchModel>,
            Seq<char>,
        >("failed to run gh: "@ + e),
{
    reveal_strlit("failed to run ");
    reveal_strlit("gh");
    reveal_strlit(": ");
    reveal_strlit("failed to run gh: ");
    assert("failed to run gh: "@ =~= "failed to run "@ + "gh"@ + ": "@);
}

/// A branch is named by its path on the server.
pub proof fn law_branches_are_deleted_by_their_path(b: RemoteBranchModel)
    ensures
        delete_args(b).program == "gh"@,
        delete_args(b).args == seq![
            "api"@,
            "-X"@,
            "DELETE"@,
            "repos/"@ + b.repo + "/git/refs/heads/"@ + b.branch,
        ],
{
}

/// That a branch was deleted is told; that it was gone already, on either stream, is not; and any
/// other failure is a warning with what `gh` said.
pub proof fn law_deletions_are_told(
    b: RemoteBranchModel,
    output: CommandOutput,
    reason: String,
)
    ensures
        ({
            let gone = "Reference does not exist"@;
            let stdout = process::printed_text(output.stdout@);
            let stderr = process::printed_text(output.stderr@);
            let message = deletion_message(b, Ok(output));
            &&& output.success ==> message == Some(
                process::MessageModel::Print("Deleted remote branch "@ + b.repo + ":"@ + b.branch),
            )
            &&& message is None <==> !output.success && (text::occurs(stdout, gone)
                || text::occurs(stderr, gone))
            &&& !output.success && message is Some ==> message == Some(
                process::MessageModel::Warn(
                    "warning: failed to delete remote branch "@ + b.repo + ":"@ + b.branch + ": "@
                        + text::trim(stderr),
                ),
            )
            &&& deletion_message(b, Err(reason)) == Some(
                process::MessageModel::Warn("warning: "@ + ("failed to run "@ + "gh"@ + ": "@ + reason@)),
            )
        }),
{
}

/// The models show every field.
pub proof fn law_models_show_every_field(b: RemoteBranch, m: Merge)
    ensures
        b.deep_view().repo == b.repo@,
        b.deep_view().branch == b.branch@,
        m.deep_view().command == m.command.deep_view(),
        m.head is None ==> m.deep_view().head is None,
        m.head matches Some(h) ==> m.deep_view().head == Some(h.deep_view()),
{
}

/// A pull request is rebased on the server, by its URL, and that fails only if `gh` does.
pub proof fn law_pull_requests_are_rebased_by_url(url: Seq<char>, status: Result<bool, Seq<char>>)
    ensures
        rebase_args(url).program == "gh"@,
        rebase_args(url).args == seq!["pr"@, "update-branch"@, url, "--rebase"@],
        rebase_result(status) is Ok <==> status == Ok::<bool, Seq<char>>(true),
        status == Ok::<bool, Seq<char>>(false) ==> rebase_result(status) == Err::<(), Seq<char>>(
            "`gh pr update-branch` failed"@,
        ),
        status matches Err(e) ==> rebase_result(status) == Err::<(), Seq<char>>(
            "failed to run "@ + "gh"@ + ": "@ + e,
        ),
{
}

} // verus!
