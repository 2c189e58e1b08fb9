//! Running failed CI jobs again.

use vstd::prelude::*;
use vstd::string::*;

use crate::ci;
use crate::number;
use crate::process;
use crate::process::{Command, Message};
use crate::text;
use crate::url;

verus! {

/// What to run again.
#[derive(Debug, PartialEq)]
pub enum Rerun {
    /// The failed and cancelled jobs of the pull request at `url`, see `rerun_pr`.
    PullRequest { repo: String, url: String },
    /// What this command runs again.
    Run(Command),
}

/// The model of a `Rerun`.
pub enum RerunModel {
    PullRequest { repo: Seq<char>, url: Seq<char> },
    Run(process::CommandModel),
}

impl DeepView for Rerun {
    type V = RerunModel;

    open spec fn deep_view(&self) -> RerunModel {
        match self {
            Rerun::PullRequest { repo, url } => RerunModel::PullRequest {
                repo: repo@,
                url: url@,
            },
            Rerun::Run(c) => RerunModel::Run(c.deep_view()),
        }
    }
}

/// The command that runs the failed jobs of a run again.
pub open spec fn rerun_failed_args(repo: Seq<char>, run_id: Seq<char>) -> process::CommandModel {
    process::CommandModel {
        program: "gh"@,
        args: seq!["run"@, "rerun"@, run_id, "--failed"@, "-R"@, repo],
    }
}

/// The command that runs a job again, plus the jobs it depends on.
pub open spec fn rerun_job_args(repo: Seq<char>, job_id: Seq<char>) -> process::CommandModel {
    process::CommandModel {
        program: "gh"@,
        args: seq!["run"@, "rerun"@, "--job"@, job_id, "-R"@, repo],
    }
}

/// What a URL asks to run again. gh refuses a run id together with --job.
pub open spec fn rerun_of(url: Seq<char>) -> Result<RerunModel, Seq<char>> {
    match url::pr_address(url) {
        Some((repo, pr_url)) => Ok(RerunModel::PullRequest { repo, url: pr_url }),
        None => match url::rerun_target(url) {
            Some(target) => Ok(
                RerunModel::Run(
                    match target.job_id {
                        Some(job_id) => rerun_job_args(target.repo, job_id),
                        None => rerun_failed_args(target.repo, target.run_id),
                    },
                ),
            ),
            None => Err(url::not_rerunnable(url)),
        },
    }
}

/// The command that runs the failed jobs of a run again.
fn rerun_failed(repo: &str, run_id: &str) -> (c: Command)
    ensures
        c.deep_view() == rerun_failed_args(repo@, run_id@),
{
    let c = process::command("gh", &["run", "rerun", run_id, "--failed", "-R", repo]);
    assert(c.deep_view().args =~= rerun_failed_args(repo@, run_id@).args);
    c
}

/// Finds out what `url` asks to run again: a PR's failed and cancelled jobs, a single job (plus
/// the jobs it depends on), or a run's failed jobs.
pub fn rerun(url: &str) -> (r: Result<Rerun, String>)
    ensures
        text::outcome(r) == rerun_of(url@),
{
    if let Some((repo, url)) = url::parse_pr_url(url) {
        return Ok(Rerun::PullRequest { repo, url });
    }
    match url::parse_rerun_url(url) {
        Ok(target) => {
            let repo = target.repo.as_str();
            let command = match target.job_id {
                Some(job_id) => {
                    let c = process::command(
                        "gh",
                        &["run", "rerun", "--job", job_id.as_str(), "-R", repo],
                    );
                    assert(c.deep_view().args =~= rerun_job_args(repo@, job_id@).args);
                    c
                },
                None => rerun_failed(repo, target.run_id.as_str()),
            };
            Ok(Rerun::Run(command))
        },
        Err(e) => Err(e),
    }
}

// ---------------------------------------------------------------------------
// The runs of a pull request
// ---------------------------------------------------------------------------

/// The runs of a pull request that are run again one after the other.
#[derive(Debug, PartialEq)]
pub struct Reruns {
    commands: Vec<Command>,
    done: usize,
    failures: usize,
}

/// The model of a `Reruns`.
pub struct RerunsModel {
    /// One for each run.
    pub commands: Seq<process::CommandModel>,
    /// How many of them were run.
    pub done: int,
    /// How many of those failed.
    pub failures: int,
}

impl DeepView for Reruns {
    type V = RerunsModel;

    closed spec fn deep_view(&self) -> RerunsModel {
        RerunsModel {
            commands: self.commands.deep_view(),
            done: self.done as int,
            failures: self.failures as int,
        }
    }
}

/// The commands that run the failed jobs of the runs `ids` again.
pub open spec fn rerun_commands(repo: Seq<char>, ids: Seq<u64>) -> Seq<process::CommandModel> {
    Seq::new(ids.len(), |i: int| rerun_failed_args(repo, number::decimal(ids[i] as nat)))
}

/// How to run the runs `ids` again, if there are any.
pub open spec fn reruns_of(repo: Seq<char>, ids: Result<Seq<u64>, Seq<char>>) -> Result<
    RerunsModel,
    Seq<char>,
> {
    match ids {
        Ok(ids) => if ids.len() == 0 {
            Err("no failed or cancelled Actions jobs to rerun"@)
        } else {
            Ok(RerunsModel { commands: rerun_commands(repo, ids), done: 0, failures: 0 })
        },
        Err(e) => Err(e),
    }
}

impl RerunsModel {
    /// The command to run next.
    pub open spec fn next_one(self) -> Option<process::CommandModel> {
        if self.done < self.commands.len() {
            Some(self.commands[self.done])
        } else {
            None
        }
    }

    /// What comes after the next command ended with `status`.
    pub open spec fn after(self, status: Result<bool, Seq<char>>) -> RerunsModel {
        RerunsModel {
            commands: self.commands,
            done: self.done + 1,
            failures: if status == Ok::<bool, Seq<char>>(true) {
                self.failures
            } else {
                self.failures + 1
            },
        }
    }

    /// What to tell the user about the next command once it ended with `status`.
    pub open spec fn said(self, status: Result<bool, Seq<char>>) -> Option<process::MessageModel> {
        match process::run_result(self.commands[self.done], status) {
            Ok(()) => None,
            Err(e) => Some(process::MessageModel::Warn("error: "@ + e)),
        }
    }

    /// The result once all commands were run.
    pub open spec fn result_text(self) -> Result<(), Seq<char>> {
        if self.failures > 0 {
            Err(
                number::decimal(self.failures as nat) + " of "@ + number::decimal(
                    self.commands.len(),
                ) + " runs failed to rerun"@,
            )
        } else {
            Ok(())
        }
    }
}

/// Starts to run the failed and cancelled jobs (plus their dependents) of every Actions run on
/// the PR's head commit again. `gh run rerun --failed` covers cancelled jobs too. `ids` are the
/// runs that have such jobs, or the reason why they are not known.
pub fn rerun_pr(repo: &str, ids: Result<Vec<u64>, String>) -> (r: Result<Reruns, String>)
    ensures
        text::outcome(r) == reruns_of(repo@, text::outcome(ids)),
{
    match ids {
        Ok(ids) => {
            assert(ids.deep_view() =~= ids@);
            if ids.len() == 0 {
                return Err("no failed or cancelled Actions jobs to rerun".to_owned());
            }
            let mut commands: Vec<Command> = Vec::new();
            for i in 0..ids.len()
                invariant
                    commands.deep_view() == rerun_commands(repo@, ids@.take(i as int)),
            {
                let ghost before = commands.deep_view();
                let c = rerun_failed(repo, number::to_decimal(ids[i]).as_str());
                let ghost model = c.deep_view();
                commands.push(c);
                assert(commands.deep_view() =~= before.push(model));
                assert(commands.deep_view() =~= rerun_commands(repo@, ids@.take(i + 1)));
            }
            assert(ids@.take(ids@.len() as int) =~= ids@);
            Ok(Reruns { commands, done: 0, failures: 0 })
        },
        Err(e) => Err(e),
    }
}

impl Reruns {
    #[verifier::type_invariant]
    spec fn counts(self) -> bool {
        self.failures <= self.done <= self.commands@.len()
    }

    /// The command to run next, if there is one left.
    pub fn next_command(&self) -> (c: Option<&Command>)
        ensures
            c.deep_view() == self.deep_view().next_one(),
    {
        if self.done < self.commands.len() {
            Some(&self.commands[self.done])
        } else {
            None
        }
    }

    /// Goes on after `next_command` was run, and says what to tell the user. Keeps going, so that
    /// one run that can't be rerun (e.g. still in progress) doesn't block the others.
    pub fn report(self, status: Result<bool, String>) -> (r: (Reruns, Option<Message>))
        requires
            self.deep_view().next_one() is Some,
        ensures
            r.0.deep_view() == self.deep_view().after(text::outcome(status)),
            r.1.deep_view() == self.deep_view().said(text::outcome(status)),
    {
        proof {
            use_type_invariant(&self);
        }
        let len = self.commands.len();
        let done = self.done;
        assert(done < len);
        let failures = self.failures;
        match process::run(&self.commands[done], status) {
            Ok(()) => (Reruns { commands: self.commands, done: done + 1, failures }, None),
            Err(e) => (
                Reruns { commands: self.commands, done: done + 1, failures: failures + 1 },
                Some(Message::Warn(text::join2("error: ", e.as_str()))),
            ),
        }
    }

    /// The result once all commands were run.
    pub fn result(&self) -> (r: Result<(), String>)
        ensures
            text::outcome(r) == self.deep_view().result_text(),
    {
        if self.failures > 0 {
            let failures = number::to_decimal(self.failures as u64);
            let all = number::to_decimal(self.commands.len() as u64);
            let mut s = text::join3(failures.as_str(), " of ", all.as_str());
            s.append(" runs failed to rerun");
            return Err(s);
        }
        Ok(())
    }
}

// ---------------------------------------------------------------------------
// Laws
// ---------------------------------------------------------------------------

/// What comes after the commands ended with `statuses`.
pub open spec fn after_all(start: RerunsModel, statuses: Seq<Result<bool, Seq<char>>>) -> RerunsModel
    decreases statuses.len(),
{
    if statuses.len() == 0 {
        start
    } else {
        after_all(start, statuses.drop_last()).after(statuses.last())
    }
}

/// Whether a command that ended in this way failed.
pub open spec fn is_failure() -> spec_fn(Result<bool, Seq<char>>) -> bool {
    |status: Result<bool, Seq<char>>| status != Ok::<bool, Seq<char>>(true)
}

/// Every run is tried, in the order of the runs, whatever became of the others; and the failures
/// are counted.
pub proof fn law_every_run_is_tried(
    repo: Seq<char>,
    ids: Seq<u64>,
    statuses: Seq<Result<bool, Seq<char>>>,
)
    requires
        ids.len() > 0,
        statuses.len() <= ids.len(),
    ensures
        reruns_of(repo, Ok(ids)) matches Ok(start) && {
            let now = after_all(start, statuses);
            &&& now.next_one() == if statuses.len() < ids.len() {
                Some(
                    rerun_failed_args(repo, number::decimal(ids[statuses.len() as int] as nat)),
                )
            } else {
                None
            }
            &&& now.failures == statuses.filter(is_failure()).len()
            &&& now.commands == rerun_commands(repo, ids)
            &&& now.done == statuses.len()
        },
    decreases statuses.len(),
{
    if statuses.len() > 0 {
        law_every_run_is_tried(repo, ids, statuses.drop_last());
        let last = statuses.last();
        assert(statuses =~= statuses.drop_last().push(last));
        ci::lemma_filter_push(statuses.drop_last(), last, is_failure());
    } else {
        reveal(Seq::filter);
    }
}

/// Running a pull request's jobs again succeeds exactly if every run could be run again.
pub proof fn law_success_means_that_all_were_rerun(
    repo: Seq<char>,
    ids: Seq<u64>,
    statuses: Seq<Result<bool, Seq<char>>>,
)
    requires
        ids.len() > 0,
        statuses.len() == ids.len(),
    ensures
        reruns_of(repo, Ok(ids)) matches Ok(start) && (after_all(start, statuses).result_text()
            is Ok <==> forall|i: int|
            0 <= i < statuses.len() ==> #[trigger] statuses[i] == Ok::<bool, Seq<char>>(true)),
{
    law_every_run_is_tried(repo, ids, statuses);
    lemma_no_failures(statuses);
}

/// No failures are counted exactly if there are none.
proof fn lemma_no_failures(statuses: Seq<Result<bool, Seq<char>>>)
    ensures
        statuses.filter(is_failure()).len() == 0 <==> forall|i: int|
            0 <= i < statuses.len() ==> #[trigger] statuses[i] == Ok::<bool, Seq<char>>(true),
    decreases statuses.len(),
{
    if statuses.len() > 0 {
        let rest = statuses.drop_last();
        let last = statuses.last();
        lemma_no_failures(rest);
        assert(statuses =~= rest.push(last));
        ci::lemma_filter_push(rest, last, is_failure());
        if forall|i: int|
            0 <= i < statuses.len() ==> #[trigger] statuses[i] == Ok::<bool, Seq<char>>(true) {
            assert forall|i: int| 0 <= i < rest.len() implies #[trigger] rest[i] == Ok::<
                bool,
                Seq<char>,
            >(true) by {
                assert(statuses[i] == rest[i]);
            }
        }
        if statuses.filter(is_failure()).len() == 0 {
            assert forall|i: int| 0 <= i < statuses.len() implies #[trigger] statuses[i] == Ok::<
                bool,
                Seq<char>,
            >(true) by {
                if i < rest.len() {
                    assert(rest[i] == statuses[i]);
                }
            }
        }
    } else {
        reveal(Seq::filter);
    }
}

/// A URL of a pull request asks to run its jobs again, one of a job for that job, and one of a run
/// for the failed jobs of the run; every other URL is refused and named. A job is run again by its
/// own id, a run by the run's.
pub proof fn law_urls_say_what_to_run_again(url: Seq<char>)
    ensures
        url::pr_address(url) matches Some((repo, link)) ==> rerun_of(url) == Ok::<
            RerunModel,
            Seq<char>,
        >(RerunModel::PullRequest { repo, url: link }),
        url::rerun_target(url) matches Some(t) ==> (rerun_of(url) matches Ok(RerunModel::Run(c))
            && c.program == "gh"@ && (t.job_id matches Some(job) ==> c.args == seq![
            "run"@,
            "rerun"@,
            "--job"@,
            job,
            "-R"@,
            t.repo,
        ]) && (t.job_id is None ==> c.args == seq![
            "run"@,
            "rerun"@,
            t.run_id,
            "--failed"@,
            "-R"@,
            t.repo,
        ])),
        url::pr_address(url) is None && url::rerun_target(url) is None ==> rerun_of(url) == Err::<
            RerunModel,
            Seq<char>,
        >("not a pull request or GitHub Actions run or job URL: "@ + url),
{
    url::law_urls_are_unambiguous(url);
}

/// The runs of a pull request are run again one by one, each by its id in its repository and only
/// its failed jobs; without any, or if they are not known, it is said why not.
pub proof fn law_each_run_is_run_again_by_its_id(
    repo: Seq<char>,
    ids: Result<Seq<u64>, Seq<char>>,
    i: int,
)
    ensures
        ids matches Err(e) ==> reruns_of(repo, ids) == Err::<RerunsModel, Seq<char>>(e),
        ids matches Ok(list) ==> (if list.len() == 0 {
            reruns_of(repo, ids) == Err::<RerunsModel, Seq<char>>(
                "no failed or cancelled Actions jobs to rerun"@,
            )
        } else {
            reruns_of(repo, ids) matches Ok(m) && m.done == 0 && m.failures == 0 && m.commands.len()
                == list.len() && (0 <= i < list.len() ==> m.commands[i].program == "gh"@
                && m.commands[i].args == seq![
                "run"@,
                "rerun"@,
                number::decimal(list[i] as nat),
                "--failed"@,
                "-R"@,
                repo,
            ])
        }),
{
}

/// A run that could be run again is not told; any other is, with what went wrong, and is counted.
/// Either way the next run comes next.
pub proof fn law_only_failed_reruns_are_told(m: RerunsModel, status: Result<bool, Seq<char>>)
    requires
        0 <= m.done < m.commands.len(),
    ensures
        m.said(status) is None <==> status == Ok::<bool, Seq<char>>(true),
        m.said(status) matches Some(message) ==> process::run_result(m.commands[m.done], status)
            matches Err(e) && message == process::MessageModel::Warn("error: "@ + e),
        m.after(status).commands == m.commands,
        m.after(status).done == m.done + 1,
        m.after(status).failures == m.failures + (if status == Ok::<bool, Seq<char>>(true) {
            0int
        } else {
            1
        }),
        m.next_one() == Some(m.commands[m.done]),
        m.done + 1 == m.commands.len() ==> m.after(status).next_one() is None,
{
}

/// The result names how many of how many runs failed, if any did.
pub proof fn law_failures_are_summed_up(m: RerunsModel)
    requires
        0 <= m.failures,
    ensures
        m.failures == 0 ==> m.result_text() == Ok::<(), Seq<char>>(()),
        m.failures > 0 ==> m.result_text() == Err::<(), Seq<char>>(
            number::decimal(m.failures as nat) + " of "@ + number::decimal(m.commands.len())
                + " runs failed to rerun"@,
        ),
{
}

} // verus!
