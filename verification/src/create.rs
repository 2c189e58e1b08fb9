//! Opening a pull request for a local branch.

use vstd::prelude::*;
use vstd::string::*;

use crate::process;
use crate::process::Command;
use crate::text;

verus! {

/// Whether `branch` is one that is never force pushed.
pub open spec fn is_protected(branch: Seq<char>) -> bool {
    branch == "main"@ || branch == "master"@
}

/// Whether a pull request may be opened for `branch`, or why not.
pub open spec fn branch_check(branch: Seq<char>) -> Result<(), Seq<char>> {
    if is_protected(branch) {
        Err("refusing to force push "@ + branch)
    } else {
        Ok(())
    }
}

/// Refuses the branches that are never force pushed.
pub fn check_pr_branch(branch: &str) -> (r: Result<(), String>)
    ensures
        text::outcome(r) == if is_protected(branch@) {
            Err("refusing to force push "@ + branch@)
        } else {
            Ok(())
        },
        text::outcome(r) == branch_check(branch@),
{
    if text::same(branch, "main") || text::same(branch, "master") {
        Err(text::join2("refusing to force push ", branch))
    } else {
        Ok(())
    }
}

/// A branch that a pull request can be opened for.
#[derive(Debug, PartialEq)]
pub struct PrBranch {
    name: String,
}

impl View for PrBranch {
    type V = Seq<char>;

    closed spec fn view(&self) -> Seq<char> {
        self.name@
    }
}

impl DeepView for PrBranch {
    type V = Seq<char>;

    open spec fn deep_view(&self) -> Seq<char> {
        self@
    }
}

/// The command that succeeds if `branch` is a local branch.
pub open spec fn verify_args(branch: Seq<char>) -> process::CommandModel {
    process::CommandModel {
        program: "git"@,
        args: seq!["rev-parse"@, "--verify"@, "--quiet"@, "refs/heads/"@ + branch],
    }
}

/// The command that force pushes `branch` to origin.
pub open spec fn push_args(branch: Seq<char>) -> process::CommandModel {
    process::CommandModel {
        program: "git"@,
        args: seq!["push"@, "--force"@, "origin"@, branch],
    }
}

/// The command that opens a pull request for `branch`, filled from its commits.
pub open spec fn create_args(branch: Seq<char>) -> process::CommandModel {
    process::CommandModel {
        program: "gh"@,
        args: seq!["pr"@, "create"@, "--head"@, branch, "--fill"@],
    }
}

/// What follows once it is known whether `branch` is a local branch: the push, or why not.
pub open spec fn push_question(branch: Seq<char>, status: Result<bool, Seq<char>>) -> Result<
    process::CommandModel,
    Seq<char>,
> {
    if status == Ok::<bool, Seq<char>>(true) {
        Ok(push_args(branch))
    } else {
        Err(branch + " is not a local branch"@)
    }
}

/// What follows the push: the pull request is opened, or it is said why not.
pub open spec fn create_question(branch: Seq<char>, status: Result<bool, Seq<char>>) -> Result<
    process::CommandModel,
    Seq<char>,
> {
    match process::run_result(push_args(branch), status) {
        Ok(()) => Ok(create_args(branch)),
        Err(e) => Err(e),
    }
}

/// What the end of the last step means.
pub open spec fn created_result(branch: Seq<char>, status: Result<bool, Seq<char>>) -> Result<
    (),
    Seq<char>,
> {
    process::run_result(create_args(branch), status)
}

/// Starts to open a pull request for `branch`: refuses it, or goes on with `verify_command`.
pub fn create_pr(branch: &str) -> (r: Result<PrBranch, String>)
    ensures
        text::outcome(r) == if is_protected(branch@) {
            Err("refusing to force push "@ + branch@)
        } else {
            Ok(branch@)
        },
        match branch_check(branch@) {
            Ok(()) => r matches Ok(b) && b@ == branch@,
            Err(e) => r matches Err(message) && message@ == e,
        },
{
    match check_pr_branch(branch) {
        Ok(()) => Ok(PrBranch { name: branch.to_owned() }),
        Err(e) => Err(e),
    }
}

impl PrBranch {
    #[verifier::type_invariant]
    spec fn is_unprotected(self) -> bool {
        !is_protected(self.name@)
    }

    /// The command that succeeds if this is a local branch. Otherwise `git push` would also
    /// accept tags, remote branches or commits.
    pub fn verify_command(&self) -> (c: Command)
        ensures
            c.deep_view() == verify_args(self@),
    {
        let reference = text::join2("refs/heads/", self.name.as_str());
        let c = process::command(
            "git",
            &["rev-parse", "--verify", "--quiet", reference.as_str()],
        );
        assert(c.deep_view().args =~= verify_args(self@).args);
        c
    }

    /// Goes on after `verify_command` was run, with the command that force pushes the branch.
    pub fn verified(&self, status: Result<bool, String>) -> (r: Result<Command, String>)
        ensures
            text::outcome(r) == if text::outcome(status) == Ok::<bool, Seq<char>>(true) {
                Ok(push_args(self@))
            } else {
                Err(self@ + " is not a local branch"@)
            },
            text::outcome(r) == push_question(self@, text::outcome(status)),
            !is_protected(self@),
    {
        proof {
            use_type_invariant(self);
        }
        if !process::succeeded(&status) {
            return Err(text::join2(self.name.as_str(), " is not a local branch"));
        }
        Ok(self.push_command())
    }

    /// The command that force pushes the branch to origin.
    fn push_command(&self) -> (c: Command)
        ensures
            c.deep_view() == push_args(self@),
    {
        let c = process::command("git", &["push", "--force", "origin", self.name.as_str()]);
        assert(c.deep_view().args =~= push_args(self@).args);
        c
    }

    /// Goes on after the branch was pushed, with the command that opens the pull request.
    pub fn pushed(&self, status: Result<bool, String>) -> (r: Result<Command, String>)
        ensures
            text::outcome(r) == match process::run_result(
                push_args(self@),
                text::outcome(status),
            ) {
                Ok(()) => Ok(create_args(self@)),
                Err(e) => Err(e),
            },
            text::outcome(r) == create_question(self@, text::outcome(status)),
    {
        match process::run(&self.push_command(), status) {
            Ok(()) => Ok(self.create_command()),
            Err(e) => Err(e),
        }
    }

    /// The command that opens the pull request.
    fn create_command(&self) -> (c: Command)
        ensures
            c.deep_view() == create_args(self@),
    {
        let c = process::command("gh", &["pr", "create", "--head", self.name.as_str(), "--fill"]);
        assert(c.deep_view().args =~= create_args(self@).args);
        c
    }

    /// The result of it all, once the command of `pushed` was run.
    pub fn created(&self, status: Result<bool, String>) -> (r: Result<(), String>)
        ensures
            text::outcome(r) == process::run_result(create_args(self@), text::outcome(status)),
            text::outcome(r) == created_result(self@, text::outcome(status)),
    {
        process::run(&self.create_command(), status)
    }
}

// ---------------------------------------------------------------------------
// Laws
// ---------------------------------------------------------------------------

/// A pull request is refused for exactly two branches, which are named.
pub proof fn law_main_and_master_are_refused(branch: Seq<char>)
    ensures
        is_protected(branch) <==> branch == "main"@ || branch == "master"@,
        branch_check(branch) is Err <==> branch == "main"@ || branch == "master"@,
        branch_check(branch) matches Err(e) ==> e == "refusing to force push "@ + branch,
{
}

/// A branch is looked up as a local one, pushed under its own name and opened as the head of the
/// pull request.
pub proof fn law_the_branch_is_handed_on(branch: Seq<char>)
    ensures
        verify_args(branch).program == "git"@,
        verify_args(branch).args == seq![
            "rev-parse"@,
            "--verify"@,
            "--quiet"@,
            "refs/heads/"@ + branch,
        ],
        push_args(branch).program == "git"@,
        push_args(branch).args == seq!["push"@, "--force"@, "origin"@, branch],
        create_args(branch).program == "gh"@,
        create_args(branch).args == seq!["pr"@, "create"@, "--head"@, branch, "--fill"@],
{
}

/// Only a local branch is pushed, and a pull request is opened only for a branch that was; what
/// goes wrong is told.
pub proof fn law_each_step_needs_the_one_before(branch: Seq<char>, status: Result<bool, Seq<char>>)
    ensures
        status == Ok::<bool, Seq<char>>(true) ==> push_question(branch, status) == Ok::<
            process::CommandModel,
            Seq<char>,
        >(push_args(branch)),
        status != Ok::<bool, Seq<char>>(true) ==> push_question(branch, status) == Err::<
            process::CommandModel,
            Seq<char>,
        >(branch + " is not a local branch"@),
        status == Ok::<bool, Seq<char>>(true) ==> create_question(branch, status) == Ok::<
            process::CommandModel,
            Seq<char>,
        >(create_args(branch)),
        status != Ok::<bool, Seq<char>>(true) ==> create_question(branch, status) is Err,
        process::run_result(push_args(branch), status) matches Err(e) ==> create_question(
            branch,
            status,
        ) == Err::<process::CommandModel, Seq<char>>(e),
{
}

/// A pull request was opened exactly if the last step succeeded; else the error shows the command,
/// or why it could not be run.
pub proof fn law_the_last_step_decides(branch: Seq<char>, status: Result<bool, Seq<char>>)
    ensures
        created_result(branch, status) is Ok <==> status == Ok::<bool, Seq<char>>(true),
        status == Ok::<bool, Seq<char>>(false) ==> created_result(branch, status) == Err::<
            (),
            Seq<char>,
        >(
            "`"@ + "gh"@ + " "@ + text::join(
                seq!["pr"@, "create"@, "--head"@, branch, "--fill"@],
                " "@,
            ) + "` failed"@,
        ),
        status matches Err(e) ==> created_result(branch, status) == Err::<(), Seq<char>>(
            "failed to run "@ + "gh"@ + ": "@ + e,
        ),
{
}

} // verus!
