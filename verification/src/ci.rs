//! Checks on a pull request's head commit, as GitHub reports them and as they are shown.

use vstd::prelude::*;
use vstd::string::*;

use crate::text;

verus! {

/// Where the checks of a commit, or a single check, stand.
#[derive(Debug, Clone, Copy, PartialEq, Eq, Structural)]
pub enum CiStatus {
    Success,
    Failure,
    Running,
    /// No checks configured for the PR's head commit.
    NoChecks,
}

/// What a rollup state, or the state of an external status, says of the checks.
pub open spec fn status_of_state(state: Option<Seq<char>>) -> CiStatus {
    match state {
        Some(s) => if s == "SUCCESS"@ {
            CiStatus::Success
        } else if s == "FAILURE"@ || s == "ERROR"@ {
            CiStatus::Failure
        } else if s == "PENDING"@ || s == "EXPECTED"@ {
            CiStatus::Running
        } else {
            CiStatus::NoChecks
        },
        None => CiStatus::NoChecks,
    }
}

impl CiStatus {
    /// The status that a rollup state stands for.
    pub fn from_rollup_state(state: Option<&str>) -> (ci: Self)
        ensures
            ci == status_of_state(state.deep_view()),
    {
        match state {
            Some(s) => {
                if text::same(s, "SUCCESS") {
                    Self::Success
                } else if text::same(s, "FAILURE") || text::same(s, "ERROR") {
                    Self::Failure
                } else if text::same(s, "PENDING") || text::same(s, "EXPECTED") {
                    Self::Running
                } else {
                    Self::NoChecks
                }
            },
            None => Self::NoChecks,
        }
    }

    /// What stands for this status in the table.
    pub open spec fn icon_text(self) -> Seq<char> {
        match self {
            Self::Success => "🟢"@,
            Self::Failure => "🔴"@,
            Self::Running => "🟡"@,
            Self::NoChecks => "  "@,
        }
    }

    /// What stands for this status in the table.
    pub fn icon(self) -> (icon: &'static str)
        ensures
            icon@ == self.icon_text(),
    {
        match self {
            Self::Success => "🟢",
            Self::Failure => "🔴",
            Self::Running => "🟡",
            // Two spaces: the same terminal width as the emoji, so columns stay aligned.
            Self::NoChecks => "  ",
        }
    }
}

// ---------------------------------------------------------------------------
// The GraphQL response
// ---------------------------------------------------------------------------

/// The commits that a query asked for: at most the head commit.
#[derive(Debug, PartialEq)]
pub struct Commits {
    pub nodes: Vec<CommitNode>,
}

#[derive(Debug, PartialEq)]
pub struct CommitNode {
    pub commit: Commit,
}

#[derive(Debug, PartialEq)]
pub struct Commit {
    pub status_check_rollup: Option<Rollup>,
}

#[derive(Debug, PartialEq)]
pub struct Rollup {
    pub state: String,
    /// Absent unless the query asked for it.
    pub contexts: Option<Contexts>,
}

#[derive(Debug, PartialEq)]
pub struct Contexts {
    pub nodes: Vec<CheckContext>,
}

/// GitHub Actions jobs are CheckRuns; StatusContexts come from external CI via the statuses API.
#[derive(Debug, PartialEq)]
pub enum CheckContext {
    CheckRun {
        name: String,
        status: String,
        conclusion: Option<String>,
        details_url: Option<String>,
        check_suite: Option<CheckSuite>,
    },
    StatusContext { context: String, state: String, target_url: Option<String> },
}

#[derive(Debug, PartialEq)]
pub struct CheckSuite {
    pub workflow_run: Option<WorkflowRun>,
}

#[derive(Debug, PartialEq)]
pub struct WorkflowRun {
    pub database_id: u64,
    pub workflow: Workflow,
}

#[derive(Debug, PartialEq)]
pub struct Workflow {
    pub name: String,
}

// ---------------------------------------------------------------------------
// Checks
// ---------------------------------------------------------------------------

/// A check as it is listed under its pull request.
#[derive(Debug, PartialEq)]
pub struct Check {
    pub name: String,
    pub ci: CiStatus,
    pub url: String,
}

/// The model of a `Check`.
pub struct CheckModel {
    pub name: Seq<char>,
    pub ci: CiStatus,
    pub url: Seq<char>,
}

impl DeepView for Check {
    type V = CheckModel;

    open spec fn deep_view(&self) -> CheckModel {
        CheckModel { name: self.name@, ci: self.ci, url: self.url@ }
    }
}

/// What `str::to_lowercase` makes of a text that is not all ASCII.
pub uninterp spec fn lowercase(s: Seq<char>) -> Seq<char>;

/// The lowercase form of an ASCII character.
pub open spec fn ascii_lower(c: char) -> char {
    if 'A' <= c <= 'Z' {
        (c as int + 32) as char
    } else {
        c
    }
}

/// A text in lowercase.
pub open spec fn lower(s: Seq<char>) -> Seq<char> {
    if vstd::utf8::is_ascii_chars(s) {
        s.map_values(|c: char| ascii_lower(c))
    } else {
        lowercase(s)
    }
}

/// `str::to_lowercase`: Unicode's lowercase, which for ASCII text replaces each capital letter
/// by its small one. What becomes of other text is left to the name.
#[verifier::external_body]
fn to_lowercase(s: &str) -> (r: String)
    ensures
        vstd::utf8::is_ascii_chars(s@) ==> r@ == s@.map_values(|c: char| ascii_lower(c)),
        !vstd::utf8::is_ascii_chars(s@) ==> r@ == lowercase(s@),
{
    s.to_lowercase()
}

/// Whether a check run with this conclusion counts as passed.
pub open spec fn passing(conclusion: Option<Seq<char>>) -> bool {
    conclusion matches Some(c) && (c == "SUCCESS"@ || c == "NEUTRAL"@ || c == "SKIPPED"@ || c
        == "STALE"@)
}

/// Whether a check run with this conclusion counts as passed.
pub fn is_passing(conclusion: Option<&str>) -> (yes: bool)
    ensures
        yes == passing(conclusion.deep_view()),
{
    match conclusion {
        Some(c) => text::same(c, "SUCCESS") || text::same(c, "NEUTRAL") || text::same(c, "SKIPPED")
            || text::same(c, "STALE"),
        None => false,
    }
}

/// Where a check run stands. A cancelled one is usually a sibling of a failed job, so it's noise.
pub open spec fn run_status(status: Seq<char>, conclusion: Option<Seq<char>>) -> CiStatus {
    if status != "COMPLETED"@ {
        CiStatus::Running
    } else if passing(conclusion) {
        CiStatus::Success
    } else if conclusion == Some("CANCELLED"@) {
        CiStatus::NoChecks
    } else {
        CiStatus::Failure
    }
}

/// `s` with a space for every underscore.
pub open spec fn spaced(s: Seq<char>) -> Seq<char> {
    s.map_values(|c: char| if c == '_' {
        ' '
    } else {
        c
    })
}

/// A job's name after the name of its workflow, since job names like "build" are ambiguous
/// across workflows.
pub open spec fn qualified(workflow: Option<Seq<char>>, name: Seq<char>) -> Seq<char> {
    match workflow {
        Some(w) => w + " / "@ + name,
        None => name,
    }
}

/// A name with the reason of a failure, in lowercase with spaces, behind it.
pub open spec fn explained(name: Seq<char>, reason: Seq<char>) -> Seq<char> {
    name + " ("@ + spaced(reason) + ")"@
}

/// The name of the workflow that a check suite belongs to.
pub open spec fn workflow_name(suite: Option<CheckSuite>) -> Option<Seq<char>> {
    match suite {
        Some(CheckSuite { workflow_run: Some(run) }) => Some(run.workflow.name@),
        _ => None,
    }
}

/// The name that a check run is listed under. A plain failure needs no explanation; the rarer
/// conclusions do.
pub open spec fn run_name(
    name: Seq<char>,
    status: Seq<char>,
    conclusion: Option<Seq<char>>,
    workflow: Option<Seq<char>>,
) -> Seq<char> {
    let full = qualified(workflow, name);
    match conclusion {
        Some(c) => if run_status(status, conclusion) is Failure && c != "FAILURE"@ {
            explained(full, lower(c))
        } else {
            full
        },
        None => full,
    }
}

/// The text, or none where there is no text.
pub open spec fn or_empty(s: Option<String>) -> Seq<char> {
    match s {
        Some(t) => t@,
        None => seq![],
    }
}

/// What is shown of a check that GitHub reports.
pub open spec fn check_of(context: CheckContext) -> CheckModel {
    match context {
        CheckContext::CheckRun { name, status, conclusion, details_url, check_suite } =>
            CheckModel {
                name: run_name(
                    name@,
                    status@,
                    conclusion.deep_view(),
                    workflow_name(check_suite),
                ),
                ci: run_status(status@, conclusion.deep_view()),
                url: or_empty(details_url),
            },
        CheckContext::StatusContext { context, state, target_url } => CheckModel {
            name: context@,
            ci: status_of_state(Some(state@)),
            url: or_empty(target_url),
        },
    }
}

/// Puts the reason of a failure, its underscores made spaces, behind a check's name.
pub fn with_reason(name: &str, reason: &str) -> (s: String)
    ensures
        s@ == explained(name@, reason@),
{
    let chars = text::to_chars(reason);
    let mut s = text::join2(name, " (");
    for i in 0..chars.len()
        invariant
            chars@ == reason@,
            s@ == name@ + " ("@ + spaced(reason@).take(i as int),
    {
        s.push(
            if chars[i] == '_' {
                ' '
            } else {
                chars[i]
            },
        );
        assert(spaced(reason@).take(i + 1) =~= spaced(reason@).take(i as int).push(
            spaced(reason@)[i as int],
        ));
        assert(s@ =~= name@ + " ("@ + spaced(reason@).take(i + 1));
    }
    assert(spaced(reason@).take(reason@.len() as int) =~= spaced(reason@));
    s.append(")");
    s
}

/// Where a check run stands.
fn status_of_run(status: &str, conclusion: &Option<String>) -> (ci: CiStatus)
    ensures
        ci == run_status(status@, conclusion.deep_view()),
{
    if !text::same(status, "COMPLETED") {
        return CiStatus::Running;
    }
    match conclusion {
        Some(c) => {
            if is_passing(Some(c.as_str())) {
                CiStatus::Success
            } else if text::same(c.as_str(), "CANCELLED") {
                CiStatus::NoChecks
            } else {
                CiStatus::Failure
            }
        },
        None => CiStatus::Failure,
    }
}

impl vstd::std_specs::convert::FromSpecImpl<CheckContext> for Check {
    open spec fn obeys_from_spec() -> bool {
        false
    }

    open spec fn from_spec(context: CheckContext) -> Check {
        arbitrary()
    }
}

impl From<CheckContext> for Check {
    fn from(context: CheckContext) -> (check: Self)
        ensures
            check.deep_view() == check_of(context),
    {
        match context {
            CheckContext::CheckRun { name, status, conclusion, details_url, check_suite } => {
                let ci = status_of_run(status.as_str(), &conclusion);
                // Job names like "build" are ambiguous across workflows, so prefix the workflow.
                let full = match check_suite {
                    Some(CheckSuite { workflow_run: Some(run) }) => text::join3(
                        run.workflow.name.as_str(),
                        " / ",
                        name.as_str(),
                    ),
                    _ => name,
                };
                // A plain failure needs no explanation; the rarer conclusions do.
                let shown = match &conclusion {
                    Some(c) => {
                        if ci == CiStatus::Failure && !text::same(c.as_str(), "FAILURE") {
                            let reason = to_lowercase(c.as_str());
                            assert(reason@ =~= lower(c@));
                            with_reason(full.as_str(), reason.as_str())
                        } else {
                            full
                        }
                    },
                    None => full,
                };
                Check { name: shown, ci, url: details_url.unwrap_or_default() }
            },
            CheckContext::StatusContext { context, state, target_url } => {
                let ci = CiStatus::from_rollup_state(Some(state.as_str()));
                Check { name: context, ci, url: target_url.unwrap_or_default() }
            },
        }
    }
}

// ---------------------------------------------------------------------------
// Commits
// ---------------------------------------------------------------------------

/// What is shown of each of the reported checks.
pub open spec fn checks_of(contexts: Seq<CheckContext>) -> Seq<CheckModel> {
    contexts.map_values(|c: CheckContext| check_of(c))
}

/// Picks the checks that stand at `ci`.
pub open spec fn at(ci: CiStatus) -> spec_fn(CheckModel) -> bool {
    |c: CheckModel| c.ci == ci
}

/// The failed checks and then the running ones, each in GitHub's order.
pub open spec fn pending_checks(contexts: Seq<CheckContext>) -> Seq<CheckModel> {
    checks_of(contexts).filter(at(CiStatus::Failure)) + checks_of(contexts).filter(
        at(CiStatus::Running),
    )
}

/// The Actions run of a failed or cancelled job.
pub open spec fn failed_run(context: CheckContext) -> Option<u64> {
    match context {
        CheckContext::CheckRun {
            status,
            conclusion,
            check_suite: Some(CheckSuite { workflow_run: Some(run) }),
            ..
        } => if status@ == "COMPLETED"@ && !passing(conclusion.deep_view()) {
            Some(run.database_id)
        } else {
            None
        },
        _ => None,
    }
}

/// The Actions runs with a failed or cancelled job, each where it first occurs.
pub open spec fn failed_runs(contexts: Seq<CheckContext>) -> Seq<u64>
    decreases contexts.len(),
{
    if contexts.len() == 0 {
        seq![]
    } else {
        let before = failed_runs(contexts.drop_last());
        match failed_run(contexts.last()) {
            Some(id) => if before.contains(id) {
                before
            } else {
                before.push(id)
            },
            None => before,
        }
    }
}

/// Filtering one more element.
pub proof fn lemma_filter_push<A>(s: Seq<A>, x: A, p: spec_fn(A) -> bool)
    ensures
        s.push(x).filter(p) == if p(x) {
            s.filter(p).push(x)
        } else {
            s.filter(p)
        },
{
    reveal(Seq::filter);
    assert(s.push(x).drop_last() =~= s);
}

/// Whether `list` holds `id`.
fn holds(list: &Vec<u64>, id: u64) -> (yes: bool)
    ensures
        yes == list@.contains(id),
{
    for i in 0..list.len()
        invariant
            forall|j: int| 0 <= j < i ==> list@[j] != id,
    {
        if list[i] == id {
            assert(list@.contains(id));
            return true;
        }
    }
    false
}

impl Commits {
    /// The rollup of the head commit's checks.
    pub open spec fn rollup(self) -> Option<Rollup> {
        if self.nodes@.len() > 0 {
            self.nodes@[0].commit.status_check_rollup
        } else {
            None
        }
    }

    /// The state of the head commit's checks.
    pub open spec fn state(self) -> Option<Seq<char>> {
        match self.rollup() {
            Some(r) => Some(r.state@),
            None => None,
        }
    }

    /// The head commit's checks.
    pub open spec fn contexts(self) -> Seq<CheckContext> {
        match self.rollup() {
            Some(Rollup { contexts: Some(c), .. }) => c.nodes@,
            _ => seq![],
        }
    }

    /// Where the head commit's checks stand.
    pub fn ci_status(&self) -> (ci: CiStatus)
        ensures
            ci == status_of_state(self.state()),
    {
        if self.nodes.len() > 0 {
            match &self.nodes[0].commit.status_check_rollup {
                Some(r) => CiStatus::from_rollup_state(Some(r.state.as_str())),
                None => CiStatus::from_rollup_state(None),
            }
        } else {
            CiStatus::from_rollup_state(None)
        }
    }

    /// The head commit's checks.
    pub fn into_contexts(self) -> (contexts: Vec<CheckContext>)
        ensures
            contexts@ == self.contexts(),
    {
        let mut nodes = self.nodes;
        if nodes.len() == 0 {
            return Vec::new();
        }
        let head = nodes.swap_remove(0);
        match head.commit.status_check_rollup {
            Some(Rollup { contexts: Some(c), .. }) => c.nodes,
            _ => Vec::new(),
        }
    }

    /// The failed checks and then the running ones, each in GitHub's order.
    pub fn failed_or_running_checks(self) -> (checks: Vec<Check>)
        ensures
            checks.deep_view() == pending_checks(self.contexts()),
    {
        let contexts = self.into_contexts();
        let ghost all = checks_of(contexts@);
        let ghost given = contexts@;
        let mut failed: Vec<Check> = Vec::new();
        let mut running: Vec<Check> = Vec::new();
        for context in it: contexts
            invariant
                it.seq() == given,
                all == checks_of(given),
                failed.deep_view() == all.take(it.index() as int).filter(at(CiStatus::Failure)),
                running.deep_view() == all.take(it.index() as int).filter(at(CiStatus::Running)),
        {
            let ghost seen = all.take(it.index() as int);
            let check = Check::from(context);
            proof {
                assert(all.take(it.index() + 1) =~= seen.push(check.deep_view()));
                lemma_filter_push(seen, check.deep_view(), at(CiStatus::Failure));
                lemma_filter_push(seen, check.deep_view(), at(CiStatus::Running));
            }
            let ghost before_failed = failed.deep_view();
            let ghost before_running = running.deep_view();
            if check.ci == CiStatus::Failure {
                failed.push(check);
                assert(failed.deep_view() =~= before_failed.push(check.deep_view()));
            } else if check.ci == CiStatus::Running {
                running.push(check);
                assert(running.deep_view() =~= before_running.push(check.deep_view()));
            }
        }
        assert(all.take(all.len() as int) =~= all);
        let ghost f = failed.deep_view();
        let ghost r = running.deep_view();
        failed.append(&mut running);
        assert(failed.deep_view() =~= f + r);
        failed
    }

    /// Actions runs with a failed or cancelled job, in GitHub's order.
    pub fn failed_run_ids(self) -> (ids: Vec<u64>)
        ensures
            ids@ == failed_runs(self.contexts()),
    {
        let contexts = self.into_contexts();
        let ghost given = contexts@;
        let mut ids: Vec<u64> = Vec::new();
        for i in 0..contexts.len()
            invariant
                contexts@ == given,
                ids@ == failed_runs(given.take(i as int)),
        {
            assert(given.take(i + 1).drop_last() =~= given.take(i as int));
            if let CheckContext::CheckRun {
                status,
                conclusion,
                check_suite: Some(CheckSuite { workflow_run: Some(run) }),
                ..
            } = &contexts[i] {
                let passed = match conclusion {
                    Some(c) => is_passing(Some(c.as_str())),
                    None => false,
                };
                if text::same(status.as_str(), "COMPLETED") && !passed && !holds(
                    &ids,
                    run.database_id,
                ) {
                    ids.push(run.database_id);
                }
            }
        }
        assert(given.take(given.len() as int) =~= given);
        ids
    }
}

// ---------------------------------------------------------------------------
// Laws
// ---------------------------------------------------------------------------

/// No run is listed twice, and a run is listed if and only if one of its jobs failed or was
/// cancelled.
pub proof fn law_failed_runs_are_distinct_and_complete(contexts: Seq<CheckContext>)
    ensures
        failed_runs(contexts).no_duplicates(),
        forall|id: u64| #[trigger]
            failed_runs(contexts).contains(id) <==> exists|i: int|
                0 <= i < contexts.len() && #[trigger] failed_run(contexts[i]) == Some(id),
    decreases contexts.len(),
{
    if contexts.len() > 0 {
        let front = contexts.drop_last();
        let before = failed_runs(front);
        let all = failed_runs(contexts);
        law_failed_runs_are_distinct_and_complete(front);
        assert forall|id: u64| #[trigger] all.contains(id) <==> exists|i: int|
            0 <= i < contexts.len() && #[trigger] failed_run(contexts[i]) == Some(id) by {
            if all.contains(id) {
                if before.contains(id) {
                    let i = choose|i: int|
                        0 <= i < front.len() && #[trigger] failed_run(front[i]) == Some(id);
                    assert(failed_run(contexts[i]) == Some(id));
                } else {
                    let k = choose|k: int| 0 <= k < all.len() && all[k] == id;
                    assert(k == before.len()) by {
                        if k < before.len() {
                            assert(before[k] == id);
                        }
                    }
                    assert(failed_run(contexts[contexts.len() - 1]) == Some(id));
                }
            }
            if exists|i: int|
                0 <= i < contexts.len() && #[trigger] failed_run(contexts[i]) == Some(id) {
                let i = choose|i: int|
                    0 <= i < contexts.len() && #[trigger] failed_run(contexts[i]) == Some(id);
                if i < front.len() {
                    assert(failed_run(front[i]) == Some(id));
                    assert(before.contains(id));
                    let k = choose|k: int| 0 <= k < before.len() && before[k] == id;
                    assert(all[k] == id);
                } else if !before.contains(id) {
                    assert(all[before.len() as int] == id);
                }
            }
        }
    }
}

/// Runs are listed in GitHub's order: the checks up to any point decide the beginning of the
/// list, and the checks after it can only append to that.
pub proof fn law_failed_runs_keep_their_order(contexts: Seq<CheckContext>, n: int)
    requires
        0 <= n <= contexts.len(),
    ensures
        failed_runs(contexts.take(n)).is_prefix_of(failed_runs(contexts)),
    decreases contexts.len(),
{
    if n == contexts.len() {
        assert(contexts.take(n) =~= contexts);
        let all = failed_runs(contexts);
        assert(all.take(all.len() as int) =~= all);
    } else {
        law_failed_runs_keep_their_order(contexts.drop_last(), n);
        assert(contexts.drop_last().take(n) =~= contexts.take(n));
        let all = failed_runs(contexts);
        let before = failed_runs(contexts.drop_last());
        let start = failed_runs(contexts.take(n));
        assert(all.take(start.len() as int) =~= before.take(start.len() as int));
    }
}

/// Filtering twice.
proof fn lemma_filter_filter<A>(s: Seq<A>, p: spec_fn(A) -> bool, q: spec_fn(A) -> bool)
    ensures
        (forall|x: A| #[trigger] p(x) ==> q(x)) ==> s.filter(p).filter(q) == s.filter(p),
        (forall|x: A| #[trigger] p(x) ==> !q(x)) ==> s.filter(p).filter(q) == Seq::<A>::empty(),
    decreases s.len(),
{
    if s.len() == 0 {
        reveal(Seq::filter);
    } else {
        let front = s.drop_last();
        lemma_filter_filter(front, p, q);
        assert(s =~= front.push(s.last()));
        lemma_filter_push(front, s.last(), p);
        if p(s.last()) {
            lemma_filter_push(front.filter(p), s.last(), q);
        }
    }
}

/// Where the failed checks end, the running ones begin.
proof fn lemma_pending_check(contexts: Seq<CheckContext>, i: int)
    requires
        0 <= i < pending_checks(contexts).len(),
    ensures
        pending_checks(contexts)[i].ci == if i < checks_of(contexts).filter(
            at(CiStatus::Failure),
        ).len() {
            CiStatus::Failure
        } else {
            CiStatus::Running
        },
{
    let all = checks_of(contexts);
    let failed = all.filter(at(CiStatus::Failure));
    if i < failed.len() {
        lemma_filtered(all, at(CiStatus::Failure), i);
    } else {
        lemma_filtered(all, at(CiStatus::Running), i - failed.len());
    }
}

/// What passes a filter is what it lets through.
proof fn lemma_filtered<A>(s: Seq<A>, p: spec_fn(A) -> bool, i: int)
    requires
        0 <= i < s.filter(p).len(),
    ensures
        p(s.filter(p)[i]),
    decreases s.len(),
{
    if s.len() == 0 {
        reveal(Seq::filter);
    } else {
        let front = s.drop_last();
        assert(s =~= front.push(s.last()));
        lemma_filter_push(front, s.last(), p);
        if i < front.filter(p).len() {
            lemma_filtered(front, p, i);
        }
    }
}

/// The list holds only failed checks and running ones.
pub proof fn law_pending_checks_failed_or_run(contexts: Seq<CheckContext>, i: int)
    requires
        0 <= i < pending_checks(contexts).len(),
    ensures
        pending_checks(contexts)[i].ci is Failure || pending_checks(contexts)[i].ci is Running,
{
    lemma_pending_check(contexts, i);
}

/// Every failed check in the list stands before every running one.
pub proof fn law_pending_checks_put_failures_first(contexts: Seq<CheckContext>, i: int, j: int)
    requires
        0 <= i < j < pending_checks(contexts).len(),
        pending_checks(contexts)[j].ci is Failure,
    ensures
        pending_checks(contexts)[i].ci is Failure,
{
    lemma_pending_check(contexts, i);
    lemma_pending_check(contexts, j);
}

/// The list holds all failed checks and all running ones, each in GitHub's order.
pub proof fn law_pending_checks_are_complete(contexts: Seq<CheckContext>)
    ensures
        pending_checks(contexts).filter(at(CiStatus::Failure)) == checks_of(contexts).filter(
            at(CiStatus::Failure),
        ),
        pending_checks(contexts).filter(at(CiStatus::Running)) == checks_of(contexts).filter(
            at(CiStatus::Running),
        ),
{
    let all = checks_of(contexts);
    let failed = all.filter(at(CiStatus::Failure));
    let running = all.filter(at(CiStatus::Running));
    Seq::filter_distributes_over_add(failed, running, at(CiStatus::Failure));
    Seq::filter_distributes_over_add(failed, running, at(CiStatus::Running));
    lemma_filter_filter(all, at(CiStatus::Failure), at(CiStatus::Failure));
    lemma_filter_filter(all, at(CiStatus::Failure), at(CiStatus::Running));
    lemma_filter_filter(all, at(CiStatus::Running), at(CiStatus::Failure));
    lemma_filter_filter(all, at(CiStatus::Running), at(CiStatus::Running));
    assert(failed + Seq::<CheckModel>::empty() =~= failed);
    assert(Seq::<CheckModel>::empty() + running =~= running);
}

/// The states of a rollup or an external status are different words.
proof fn lemma_states()
    ensures
        "SUCCESS"@ != "FAILURE"@,
        "SUCCESS"@ != "ERROR"@,
        "SUCCESS"@ != "PENDING"@,
        "SUCCESS"@ != "EXPECTED"@,
        "FAILURE"@ != "PENDING"@,
        "FAILURE"@ != "EXPECTED"@,
        "ERROR"@ != "PENDING"@,
        "ERROR"@ != "EXPECTED"@,
{
    reveal_strlit("SUCCESS");
    reveal_strlit("FAILURE");
    reveal_strlit("ERROR");
    reveal_strlit("PENDING");
    reveal_strlit("EXPECTED");
    assert("SUCCESS"@[0] == 'S');
    assert("FAILURE"@[0] == 'F');
    assert("ERROR"@.len() == 5);
    assert("PENDING"@[0] == 'P');
    assert("EXPECTED"@.len() == 8);
}

/// A state stands for one status, and only these states stand for checks at all.
pub proof fn law_states_say_where_ci_stands(state: Option<Seq<char>>)
    ensures
        status_of_state(state) is Success <==> state == Some("SUCCESS"@),
        status_of_state(state) is Failure <==> state == Some("FAILURE"@) || state == Some(
            "ERROR"@,
        ),
        status_of_state(state) is Running <==> state == Some("PENDING"@) || state == Some(
            "EXPECTED"@,
        ),
{
    lemma_states();
}

/// Each status has an icon of its own, and that for no checks is blank and two characters wide.
pub proof fn law_icons_tell_statuses_apart(a: CiStatus, b: CiStatus)
    ensures
        a.icon_text() == b.icon_text() <==> a == b,
        CiStatus::NoChecks.icon_text() == seq![' ', ' '],
        !(a is NoChecks) ==> a.icon_text().len() == 1,
        CiStatus::Success.icon_text()[0] == '🟢',
        CiStatus::Failure.icon_text()[0] == '🔴',
        CiStatus::Running.icon_text()[0] == '🟡',
{
    reveal_strlit("🟢");
    reveal_strlit("🔴");
    reveal_strlit("🟡");
    reveal_strlit("  ");
    assert("  "@ =~= seq![' ', ' ']);
    assert("🟢"@[0] == '🟢' && "🔴"@[0] == '🔴' && "🟡"@[0] == '🟡');
    assert("🟢"@.len() == 1 && "🔴"@.len() == 1 && "🟡"@.len() == 1 && "  "@.len() == 2);
}

/// The first commit decides: its rollup gives the state and the checks, whatever other commits
/// there are, and without a rollup there is neither.
pub proof fn law_the_first_commit_counts(commits: Commits)
    ensures
        commits.nodes@.len() == 0 ==> commits.state() is None && commits.contexts().len() == 0,
        commits.nodes@.len() > 0 ==> match commits.nodes@[0].commit.status_check_rollup {
            Some(rollup) => {
                &&& commits.state() == Some(rollup.state@)
                &&& rollup.contexts is None ==> commits.contexts().len() == 0
                &&& rollup.contexts matches Some(c) ==> commits.contexts() == c.nodes@
            },
            None => commits.state() is None && commits.contexts().len() == 0,
        },
{
}

/// The conclusions that matter are different words.
proof fn lemma_conclusions()
    ensures
        "CANCELLED"@ != "SUCCESS"@,
        "CANCELLED"@ != "NEUTRAL"@,
        "CANCELLED"@ != "SKIPPED"@,
        "CANCELLED"@ != "STALE"@,
        "FAILURE"@ != "SUCCESS"@,
        "FAILURE"@ != "NEUTRAL"@,
        "FAILURE"@ != "SKIPPED"@,
        "FAILURE"@ != "STALE"@,
        "FAILURE"@ != "CANCELLED"@,
{
    reveal_strlit("SUCCESS");
    reveal_strlit("NEUTRAL");
    reveal_strlit("SKIPPED");
    reveal_strlit("STALE");
    reveal_strlit("CANCELLED");
    reveal_strlit("FAILURE");
    assert("CANCELLED"@.len() == 9 && "SUCCESS"@.len() == 7 && "NEUTRAL"@.len() == 7);
    assert("SKIPPED"@.len() == 7 && "STALE"@.len() == 5 && "FAILURE"@.len() == 7);
    assert("FAILURE"@[0] == 'F' && "SUCCESS"@[0] == 'S' && "NEUTRAL"@[0] == 'N');
    assert("SKIPPED"@[0] == 'S');
}

/// A conclusion counts as passed exactly if it is one of four.
pub proof fn law_four_conclusions_pass(conclusion: Option<Seq<char>>)
    ensures
        passing(conclusion) <==> conclusion == Some("SUCCESS"@) || conclusion == Some("NEUTRAL"@)
            || conclusion == Some("SKIPPED"@) || conclusion == Some("STALE"@),
{
}

/// A check run is running until it is completed. Then it passed, was cancelled, which is noise, or
/// failed; without a conclusion it failed.
pub proof fn law_check_runs_stand_where_they_are_reported(
    name: String,
    status: String,
    conclusion: Option<String>,
    details_url: Option<String>,
    check_suite: Option<CheckSuite>,
)
    ensures
        ({
            let ci = check_of(
                CheckContext::CheckRun { name, status, conclusion, details_url, check_suite },
            ).ci;
            let completed = status@ == "COMPLETED"@;
            &&& ci is Running <==> !completed
            &&& ci is Success <==> completed && (conclusion matches Some(c) && (c@ == "SUCCESS"@
                || c@ == "NEUTRAL"@ || c@ == "SKIPPED"@ || c@ == "STALE"@))
            &&& ci is NoChecks <==> completed && (conclusion matches Some(c) && c@
                == "CANCELLED"@)
            &&& ci is Failure <==> completed && (conclusion matches Some(c) ==> c@ != "SUCCESS"@
                && c@ != "NEUTRAL"@ && c@ != "SKIPPED"@ && c@ != "STALE"@ && c@ != "CANCELLED"@)
        }),
{
    lemma_conclusions();
}

/// An external status is shown under its context, and its state says where it stands.
pub proof fn law_external_statuses_are_shown_as_reported(
    context: String,
    state: String,
    target_url: Option<String>,
)
    ensures
        ({
            let check = check_of(CheckContext::StatusContext { context, state, target_url });
            &&& check.name == context@
            &&& check.ci is Success <==> state@ == "SUCCESS"@
            &&& check.ci is Failure <==> state@ == "FAILURE"@ || state@ == "ERROR"@
            &&& check.ci is Running <==> state@ == "PENDING"@ || state@ == "EXPECTED"@
        }),
{
    lemma_states();
}

/// The URL of a check is the one that is reported, wherever the check stands; it is empty only
/// where none is reported.
pub proof fn law_checks_keep_their_urls(context: CheckContext)
    ensures
        match context {
            CheckContext::CheckRun { details_url: Some(url), .. } => check_of(context).url == url@,
            CheckContext::StatusContext { target_url: Some(url), .. } => check_of(context).url
                == url@,
            _ => check_of(context).url.len() == 0,
        },
{
}

/// A check run is listed under its name, behind that of its workflow if it has one. Only a failure
/// that is not a plain one is explained: by its conclusion, in lowercase and with spaces for
/// underscores, in brackets.
pub proof fn law_check_runs_are_named(
    name: String,
    status: String,
    conclusion: Option<String>,
    details_url: Option<String>,
    check_suite: Option<CheckSuite>,
)
    ensures
        ({
            let check = check_of(
                CheckContext::CheckRun { name, status, conclusion, details_url, check_suite },
            );
            let full = match check_suite {
                Some(CheckSuite { workflow_run: Some(run) }) => run.workflow.name@ + seq![
                    ' ',
                    '/',
                    ' ',
                ] + name@,
                _ => name@,
            };
            let plain = !(check.ci is Failure) || conclusion is None || conclusion->0@
                == "FAILURE"@;
            &&& plain ==> check.name == full
            &&& !plain ==> {
                let reason = check.name.subrange((full.len() + 2) as int, check.name.len() - 1);
                let word = conclusion->0@;
                &&& check.name == full + seq![' ', '('] + reason + seq![')']
                &&& vstd::utf8::is_ascii_chars(word) ==> reason.len() == word.len() && forall|i: int|
                    0 <= i < word.len() ==> #[trigger] reason[i] == if word[i] == '_' {
                        ' '
                    } else if 'A' <= word[i] <= 'Z' {
                        (word[i] as int + 32) as char
                    } else {
                        word[i]
                    }
                &&& !vstd::utf8::is_ascii_chars(word) ==> reason.len() == lowercase(word).len()
                    && forall|i: int|
                    0 <= i < reason.len() ==> #[trigger] reason[i] == if lowercase(word)[i] == '_' {
                        ' '
                    } else {
                        lowercase(word)[i]
                    }
            }
        }),
{
    reveal_strlit(" / ");
    reveal_strlit(" (");
    reveal_strlit(")");
    assert(" / "@ =~= seq![' ', '/', ' ']);
    assert(" ("@ =~= seq![' ', '(']);
    assert(")"@ =~= seq![')']);
    if conclusion is Some {
        let word = conclusion->0@;
        let full = qualified(workflow_name(check_suite), name@);
        let reason = spaced(lower(word));
        assert(conclusion.deep_view() == Some(word));
        let said = full + seq![' ', '('] + reason + seq![')'];
        assert(said.subrange((full.len() + 2) as int, said.len() - 1) =~= reason);
    }
}

/// Each reported check is shown, in its place.
pub proof fn law_every_context_is_a_check(contexts: Seq<CheckContext>, i: int)
    requires
        0 <= i < contexts.len(),
    ensures
        checks_of(contexts).len() == contexts.len(),
        checks_of(contexts)[i] == check_of(contexts[i]),
{
}

/// A check is in the list exactly if it is reported and failed or runs.
pub proof fn law_a_check_is_pending_if_it_failed_or_runs(
    contexts: Seq<CheckContext>,
    check: CheckModel,
)
    ensures
        pending_checks(contexts).contains(check) <==> (check.ci is Failure || check.ci is Running)
            && exists|i: int| 0 <= i < contexts.len() && #[trigger] check_of(contexts[i]) == check,
{
    let all = checks_of(contexts);
    let failed = all.filter(at(CiStatus::Failure));
    let running = all.filter(at(CiStatus::Running));
    let shown = pending_checks(contexts);
    lemma_filter_holds(all, at(CiStatus::Failure), check);
    lemma_filter_holds(all, at(CiStatus::Running), check);
    if shown.contains(check) {
        let k = choose|k: int| 0 <= k < shown.len() && shown[k] == check;
        if k < failed.len() {
            assert(failed[k] == check);
        } else {
            assert(running[k - failed.len()] == check);
        }
        assert(all.contains(check));
        let i = choose|i: int| 0 <= i < all.len() && all[i] == check;
        assert(check_of(contexts[i]) == check);
    }
    if (check.ci is Failure || check.ci is Running) && exists|i: int|
        0 <= i < contexts.len() && #[trigger] check_of(contexts[i]) == check {
        let i = choose|i: int|
            0 <= i < contexts.len() && #[trigger] check_of(contexts[i]) == check;
        assert(all[i] == check);
        if check.ci is Failure {
            let k = choose|k: int| 0 <= k < failed.len() && failed[k] == check;
            assert(shown[k] == check);
        } else {
            let k = choose|k: int| 0 <= k < running.len() && running[k] == check;
            assert(shown[failed.len() + k] == check);
        }
    }
}

/// A filter keeps what it lets through, and nothing else.
proof fn lemma_filter_holds<A>(s: Seq<A>, p: spec_fn(A) -> bool, x: A)
    ensures
        s.filter(p).contains(x) <==> s.contains(x) && p(x),
    decreases s.len(),
{
    if s.len() == 0 {
        reveal(Seq::filter);
    } else {
        let front = s.drop_last();
        let last = s.last();
        let kept = front.filter(p);
        lemma_filter_holds(front, p, x);
        assert(s =~= front.push(last));
        lemma_filter_push(front, last, p);
        assert(s.contains(x) <==> front.contains(x) || last == x) by {
            if front.contains(x) {
                let i = choose|i: int| 0 <= i < front.len() && front[i] == x;
                assert(s[i] == x);
            }
            if last == x {
                assert(s[s.len() - 1] == x);
            }
            if s.contains(x) {
                let i = choose|i: int| 0 <= i < s.len() && s[i] == x;
                if i < front.len() {
                    assert(front[i] == x);
                }
            }
        }
        assert(kept.push(last).contains(x) <==> kept.contains(x) || last == x) by {
            if kept.contains(x) {
                let i = choose|i: int| 0 <= i < kept.len() && kept[i] == x;
                assert(kept.push(last)[i] == x);
            }
            if last == x {
                assert(kept.push(last)[kept.len() as int] == x);
            }
            if kept.push(last).contains(x) {
                let i = choose|i: int| 0 <= i < kept.len() + 1 && kept.push(last)[i] == x;
                if i < kept.len() {
                    assert(kept[i] == x);
                }
            }
        }
    }
}

/// A check counts as failed for its run exactly if it is a job of an Actions run, is completed, and
/// its conclusion is none of the four that pass; one without a conclusion counts too.
pub proof fn law_a_run_failed_if_a_job_did_not_pass(context: CheckContext, id: u64)
    ensures
        failed_run(context) == Some(id) <==> (context matches CheckContext::CheckRun {
            status,
            conclusion,
            check_suite: Some(CheckSuite { workflow_run: Some(run) }),
            ..
        } && run.database_id == id && status@ == "COMPLETED"@ && (conclusion matches Some(c)
            ==> c@ != "SUCCESS"@ && c@ != "NEUTRAL"@ && c@ != "SKIPPED"@ && c@ != "STALE"@)),
{
}

/// Every failed job of an Actions run that is shown as failed, and every cancelled one, has its run
/// among those to run again.
pub proof fn law_failed_and_cancelled_jobs_are_rerun(contexts: Seq<CheckContext>, i: int)
    requires
        0 <= i < contexts.len(),
    ensures
        contexts[i] matches CheckContext::CheckRun {
            check_suite: Some(CheckSuite { workflow_run: Some(run) }),
            ..
        } ==> (check_of(contexts[i]).ci is Failure || check_of(contexts[i]).ci is NoChecks
            ==> failed_runs(contexts).contains(run.database_id)),
{
    law_failed_runs_are_distinct_and_complete(contexts);
    if let CheckContext::CheckRun {
        name,
        status,
        conclusion,
        details_url,
        check_suite: Some(CheckSuite { workflow_run: Some(run) }),
    } = contexts[i] {
        law_a_run_failed_if_a_job_did_not_pass(contexts[i], run.database_id);
        law_check_runs_stand_where_they_are_reported(
            name,
            status,
            conclusion,
            details_url,
            Some(CheckSuite { workflow_run: Some(run) }),
        );
        lemma_conclusions();
    }
}

} // verus!
