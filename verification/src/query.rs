//! What `gh` is asked.

use vstd::prelude::*;
use vstd::string::*;

use crate::calendar;
use crate::process;
use crate::process::{Command, CommandOutput};
use crate::text;
use crate::time;
use crate::time::Timestamp;

verus! {

/// GraphQL rather than `gh search prs`, whose --json can't return CI status.
/// Search works across all repos, unlike `gh pr list` which needs a repo context.
pub const QUERY: &'static str = "query {
  search(query: \"is:pr is:open author:@me\", type: ISSUE, first: 100) {
    nodes { ...Pr }
  }
  WATCHED
}
fragment Pr on PullRequest {
  repository { nameWithOwner }
  author { login }
  title
  url
  updatedAt
  isDraft
  commits(last: 1) { nodes { commit { statusCheckRollup { state CONTEXTS } } } }
}";

/// Substituted into `QUERY` for `--actions`. Plain text substitution rather than
/// `@include(if: $var)` because `graphql_command` only passes string variables.
pub const CONTEXTS: &'static str = "contexts(first: 100) {
  nodes {
    __typename
    ... on CheckRun {
      name status conclusion detailsUrl
      checkSuite { workflowRun { databaseId workflow { name } } }
    }
    ... on StatusContext { context state targetUrl }
  }
}";

/// Asks for what is needed to wait for a pull request or to merge it.
pub const PR_INFO_QUERY: &'static str = "query($url: URI!) {
  resource(url: $url) {
    ... on PullRequest {
      title
      repository { nameWithOwner }
      headRefName
      headRefOid
      headRepository { nameWithOwner }
      commits(last: 1) { nodes { commit { statusCheckRollup { state } } } }
    }
  }
}";

/// Asks for the checks of a pull request. CONTEXTS is substituted as in `QUERY`.
pub const PR_RUNS_QUERY: &'static str = "query($url: URI!) {
  resource(url: $url) {
    ... on PullRequest {
      commits(last: 1) { nodes { commit { statusCheckRollup { state CONTEXTS } } } }
    }
  }
}";

// ---------------------------------------------------------------------------
// GraphQL
// ---------------------------------------------------------------------------

/// The arguments for the first `n` variables.
pub open spec fn variable_args(vars: Seq<(Seq<char>, Seq<char>)>, n: int) -> Seq<Seq<char>>
    decreases n,
{
    if n <= 0 {
        seq![]
    } else {
        variable_args(vars, n - 1).push("-f"@).push(vars[n - 1].0 + "="@ + vars[n - 1].1)
    }
}

/// The command that asks `query` with the variables `vars`.
pub open spec fn graphql(
    query: Seq<char>,
    vars: Seq<(Seq<char>, Seq<char>)>,
) -> process::CommandModel {
    process::CommandModel {
        program: "gh"@,
        args: seq!["api"@, "graphql"@, "-f"@, "query="@ + query] + variable_args(
            vars,
            vars.len() as int,
        ),
    }
}

/// The command that asks `query` with the variables `vars`.
pub fn graphql_command(query: &str, vars: &[(&str, &str)]) -> (c: Command)
    ensures
        c.deep_view() == graphql(query@, vars.deep_view()),
{
    let ghost model = vars.deep_view();
    let mut args: Vec<String> = Vec::new();
    args.push("api".to_owned());
    args.push("graphql".to_owned());
    args.push("-f".to_owned());
    args.push(text::join2("query=", query));
    let ghost start = seq!["api"@, "graphql"@, "-f"@, "query="@ + query@];
    assert(args.deep_view() =~= start + variable_args(model, 0));
    for i in 0..vars.len()
        invariant
            model == vars.deep_view(),
            args.deep_view() == start + variable_args(model, i as int),
    {
        assert(model[i as int] == (vars@[i as int].0@, vars@[i as int].1@));
        let ghost before = args.deep_view();
        let value = text::join3(vars[i].0, "=", vars[i].1);
        args.push("-f".to_owned());
        args.push(value);
        assert(args.deep_view() =~= before.push("-f"@).push(value@));
        assert(args.deep_view() =~= start + variable_args(model, i + 1));
    }
    Command { program: "gh".to_owned(), args }
}

/// What the end of a `gh api graphql` means: the text that it printed, or an error.
pub open spec fn response_text(output: Result<CommandOutput, String>) -> Result<
    Seq<char>,
    Seq<char>,
> {
    match output {
        Ok(o) => if !o.success {
            Err("`gh api graphql` failed"@)
        } else if vstd::utf8::valid_utf8(o.stdout@) {
            Ok(vstd::utf8::decode_utf8(o.stdout@))
        } else {
            Err("gh returned invalid UTF-8: "@ + process::utf8_error(o.stdout@))
        },
        Err(e) => Err(process::not_run("gh"@, e@)),
    }
}

/// What a `gh api graphql` printed. `output` is its output, or the reason why it could not be
/// run.
pub fn graphql_response(output: Result<CommandOutput, String>) -> (json: Result<String, String>)
    ensures
        text::outcome(json) == response_text(output),
{
    match output {
        Ok(o) => {
            if !o.success {
                return Err("`gh api graphql` failed".to_owned());
            }
            match process::from_utf8(o.stdout) {
                Ok(json) => Ok(json),
                Err(e) => Err(text::join2("gh returned invalid UTF-8: ", e.as_str())),
            }
        },
        Err(e) => Err(process::not_run_error("gh", e.as_str())),
    }
}

// ---------------------------------------------------------------------------
// Watched repositories
// ---------------------------------------------------------------------------

/// How recently a watched repo's PR must have been opened to be listed, in seconds: three weeks.
pub const WATCHED_MAX_AGE: i64 = 3 * 7 * 86_400;

/// The qualifiers for the first `n` repositories.
pub open spec fn repo_qualifiers(repos: Seq<Seq<char>>, n: int) -> Seq<char>
    decreases n,
{
    if n <= 0 {
        seq![]
    } else {
        repo_qualifiers(repos, n - 1) + " repo:"@ + repos[n - 1]
    }
}

/// The search for the pull requests of others in `repos` that were opened since `date`.
pub open spec fn search_text(date: Seq<char>, repos: Seq<Seq<char>>) -> Seq<char> {
    "watched: search(query: \"is:pr is:open -author:@me created:>="@ + date + repo_qualifiers(
        repos,
        repos.len() as int,
    ) + "\", type: ISSUE, first: 100) { nodes { ...Pr } }"@
}

/// The date from which on pull requests of watched repositories are listed at `now`.
pub open spec fn watched_since(now: time::Moment) -> Seq<char> {
    calendar::date_of(now.back(WATCHED_MAX_AGE as int).secs / 86_400).text()
}

/// Whether the calendar goes back far enough to list watched repositories at `now`.
pub open spec fn can_search(now: time::Moment) -> bool {
    now.back(WATCHED_MAX_AGE as int).secs >= time::FIRST_SECOND
}

/// Search has no "repos I watch" qualifier, so they're listed as `repo:` qualifiers.
/// Fetching each watched repo's PRs through GraphQL instead times out (HTTP 504).
pub fn watched_search(repos: &[String], now: Timestamp) -> (s: String)
    requires
        can_search(now.deep_view()),
    ensures
        s@ == search_text(watched_since(now.deep_view()), repos.deep_view()),
{
    let ghost model = repos.deep_view();
    let since = now.date_before(WATCHED_MAX_AGE);
    let mut s = text::join2(
        "watched: search(query: \"is:pr is:open -author:@me created:>=",
        since.as_str(),
    );
    let ghost start = s@;
    assert(s@ =~= start + repo_qualifiers(model, 0));
    for i in 0..repos.len()
        invariant
            model == repos.deep_view(),
            s@ == start + repo_qualifiers(model, i as int),
    {
        s.append(" repo:");
        s.append(repos[i].as_str());
        assert(s@ =~= start + repo_qualifiers(model, i + 1));
    }
    s.append("\", type: ISSUE, first: 100) { nodes { ...Pr } }");
    s
}

/// The part of the query about watched repositories.
pub open spec fn watched_text(repos: Seq<Seq<char>>, now: time::Moment) -> Seq<char> {
    if repos.len() == 0 {
        seq![]
    } else {
        search_text(watched_since(now), repos)
    }
}

/// The part of the query about watched repositories. With no `repo:` qualifier the search would
/// cover all of GitHub, so without repositories there is no such part.
pub fn watched_part(repos: &[String], now: Timestamp) -> (s: String)
    requires
        repos@.len() > 0 ==> can_search(now.deep_view()),
    ensures
        s@ == watched_text(repos.deep_view(), now.deep_view()),
{
    if repos.len() == 0 {
        String::new()
    } else {
        watched_search(repos, now)
    }
}

/// The command that prints the names of the repositories that the user watches. REST rather than
/// GraphQL's `viewer.watching`, which is twice as slow.
pub open spec fn subscriptions_args() -> process::CommandModel {
    process::CommandModel {
        program: "gh"@,
        args: seq![
            "api"@,
            "user/subscriptions?per_page=100"@,
            "--paginate"@,
            "--jq"@,
            ".[].full_name"@,
        ],
    }
}

/// The command that prints the names of the repositories that the user watches.
pub fn subscriptions_command() -> (c: Command)
    ensures
        c.deep_view() == subscriptions_args(),
{
    let c = process::command(
        "gh",
        &["api", "user/subscriptions?per_page=100", "--paginate", "--jq", ".[].full_name"],
    );
    assert(c.deep_view().args =~= subscriptions_args().args);
    c
}

/// The repositories that the end of `subscriptions_command` names.
pub open spec fn repos_in(output: Result<CommandOutput, String>) -> Result<
    Seq<Seq<char>>,
    Seq<char>,
> {
    match output {
        Ok(o) => if !o.success {
            Err("`gh api user/subscriptions` failed"@)
        } else {
            Ok(text::lines(process::printed_text(o.stdout@)))
        },
        Err(e) => Err(process::not_run("gh"@, e@)),
    }
}

/// Full names (owner/repo) of the repos the user watches. `output` is that of
/// `subscriptions_command`, or the reason why it could not be run.
pub fn watched_repos(output: Result<CommandOutput, String>) -> (repos: Result<Vec<String>, String>)
    ensures
        text::outcome(repos) == repos_in(output),
{
    match output {
        Ok(o) => {
            if !o.success {
                return Err("`gh api user/subscriptions` failed".to_owned());
            }
            Ok(text::cut_lines(process::from_utf8_lossy(o.stdout.as_slice()).as_str()))
        },
        Err(e) => Err(process::not_run_error("gh", e.as_str())),
    }
}

// ---------------------------------------------------------------------------
// Pull requests
// ---------------------------------------------------------------------------

/// The query for the open pull requests, with their checks or without, and with `watched` for the
/// part about watched repositories.
pub open spec fn open_prs_query(with_checks: bool, watched: Seq<char>) -> Seq<char> {
    text::replace(
        text::replace(
            QUERY@,
            "CONTEXTS"@,
            if with_checks {
                CONTEXTS@
            } else {
                ""@
            },
        ),
        "WATCHED"@,
        watched,
    )
}

/// The command that lists the open pull requests. `watched` is the part of the query about
/// watched repositories, see `watched_part`.
pub fn list_open_prs(with_checks: bool, watched: &str) -> (c: Command)
    ensures
        c.deep_view() == graphql(open_prs_query(with_checks, watched@), seq![]),
{
    proof {
        reveal_strlit("CONTEXTS");
        reveal_strlit("WATCHED");
    }
    let contexts = if with_checks {
        CONTEXTS
    } else {
        ""
    };
    let query = text::replaced(QUERY, "CONTEXTS", contexts);
    let c = graphql_command(text::replaced(query.as_str(), "WATCHED", watched).as_str(), &[]);
    assert(c.deep_view().args =~= graphql(open_prs_query(with_checks, watched@), seq![]).args);
    c
}

/// What is asked to wait for the pull request at `url` or to merge it.
pub open spec fn pr_info_question(url: Seq<char>) -> process::CommandModel {
    graphql(PR_INFO_QUERY@, seq![("url"@, url)])
}

/// What is asked about the checks of the pull request at `url`.
pub open spec fn pr_runs_question(url: Seq<char>) -> process::CommandModel {
    graphql(text::replace(PR_RUNS_QUERY@, "CONTEXTS"@, CONTEXTS@), seq![("url"@, url)])
}

/// The command that asks for what is needed to wait for the pull request at `url` or to merge it.
pub fn pr_info_command(url: &str) -> (c: Command)
    ensures
        c.deep_view() == graphql(PR_INFO_QUERY@, seq![("url"@, url@)]),
        c.deep_view() == pr_info_question(url@),
{
    let vars: [(&str, &str); 1] = [("url", url)];
    let c = graphql_command(PR_INFO_QUERY, &vars);
    assert(vars@[0] == ("url", url));
    assert(vars.deep_view() =~= seq![("url"@, url@)]);
    c
}

/// The command that asks for the checks of the pull request at `url`.
pub fn pr_runs_command(url: &str) -> (c: Command)
    ensures
        c.deep_view() == graphql(
            text::replace(PR_RUNS_QUERY@, "CONTEXTS"@, CONTEXTS@),
            seq![("url"@, url@)],
        ),
        c.deep_view() == pr_runs_question(url@),
{
    proof {
        reveal_strlit("CONTEXTS");
    }
    let query = text::replaced(PR_RUNS_QUERY, "CONTEXTS", CONTEXTS);
    let vars: [(&str, &str); 1] = [("url", url)];
    let c = graphql_command(query.as_str(), &vars);
    assert(vars@[0] == ("url", url));
    assert(vars.deep_view() =~= seq![("url"@, url@)]);
    c
}

// ---------------------------------------------------------------------------
// Laws
// ---------------------------------------------------------------------------

/// What `gh` prints is handed on as it is.
pub proof fn law_responses_are_handed_on(output: CommandOutput, printed: Seq<char>)
    requires
        output.success,
        output.stdout@ == vstd::utf8::encode_utf8(printed),
    ensures
        response_text(Ok(output)) == Ok::<Seq<char>, Seq<char>>(printed),
{
    vstd::utf8::encode_utf8_valid_utf8(printed);
    vstd::utf8::encode_utf8_decode_utf8(printed);
}

/// The names of repositories that `gh` prints one per line are read.
pub proof fn law_printed_repos_are_read(output: CommandOutput, repos: Seq<Seq<char>>)
    requires
        output.success,
        output.stdout@ == vstd::utf8::encode_utf8(text::one_per_line(repos)),
        forall|i: int| 0 <= i < repos.len() ==> text::fits_line(#[trigger] repos[i]),
    ensures
        repos_in(Ok(output)) == Ok::<Seq<Seq<char>>, Seq<char>>(repos),
{
    vstd::utf8::encode_utf8_valid_utf8(text::one_per_line(repos));
    vstd::utf8::encode_utf8_decode_utf8(text::one_per_line(repos));
    text::law_lines_are_read_back(repos);
}

/// Watched repositories are searched exactly if there are some, and each of them is named: the
/// search never covers all of GitHub.
pub proof fn law_every_watched_repo_is_named(repos: Seq<Seq<char>>, now: time::Moment, i: int)
    ensures
        watched_text(repos, now).len() > 0 <==> repos.len() > 0,
        0 <= i < repos.len() ==> text::occurs(watched_text(repos, now), " repo:"@ + repos[i]),
{
    reveal_strlit("watched: search(query: \"is:pr is:open -author:@me created:>=");
    if 0 <= i < repos.len() {
        let n = repos.len() as int;
        let name = " repo:"@ + repos[i];
        let start = "watched: search(query: \"is:pr is:open -author:@me created:>="@
            + watched_since(now);
        let end = "\", type: ISSUE, first: 100) { nodes { ...Pr } }"@;
        let all = watched_text(repos, now);
        let k = lemma_qualifier(repos, n, i);
        assert(all =~= start + repo_qualifiers(repos, n) + end);
        let at = start.len() + k;
        assert(all.subrange(at, at + name.len()) =~= repo_qualifiers(repos, n).subrange(
            k,
            k + name.len(),
        ));
        assert(text::occurs_at(all, name, at));
    }
}

/// The qualifier of repository `i` is among those of the first `n`.
proof fn lemma_qualifier(repos: Seq<Seq<char>>, n: int, i: int) -> (at: int)
    requires
        0 <= i < n <= repos.len(),
    ensures
        text::occurs_at(repo_qualifiers(repos, n), " repo:"@ + repos[i], at),
    decreases n,
{
    let all = repo_qualifiers(repos, n);
    let rest = repo_qualifiers(repos, n - 1);
    let name = " repo:"@ + repos[i];
    if i == n - 1 {
        let at = rest.len() as int;
        assert(all.subrange(at, at + name.len()) =~= name);
        at
    } else {
        let at = lemma_qualifier(repos, n - 1, i);
        assert(all.subrange(at, at + name.len()) =~= rest.subrange(at, at + name.len()));
        at
    }
}

/// A pattern that occurs once is replaced there.
proof fn lemma_replace_once(
    a: Seq<char>,
    pattern: Seq<char>,
    b: Seq<char>,
    with: Seq<char>,
    k: int,
)
    requires
        0 <= k < pattern.len(),
        forall|j: int| 0 <= j < pattern.len() && j != k ==> pattern[j] != pattern[k],
        text::without(a, pattern[k]),
        text::without(b, pattern[k]),
    ensures
        text::replace(a + pattern + b, pattern, with) == a + with + b,
{
    let s = a + pattern + b;
    let c = pattern[k];
    assert forall|j: int| 0 <= j < a.len() implies !text::occurs_at(s, pattern, j) by {
        if text::occurs_at(s, pattern, j) {
            assert(s.subrange(j, j + pattern.len())[k] == s[j + k]);
            if j + k < a.len() {
                assert(s[j + k] == a[j + k]);
            } else if j + k < a.len() + pattern.len() {
                assert(s[j + k] == pattern[j + k - a.len()]);
            } else {
                assert(s[j + k] == b[j + k - a.len() - pattern.len()]);
            }
        }
    }
    assert forall|j: int| !text::occurs_at(b, pattern, j) by {
        if text::occurs_at(b, pattern, j) {
            assert(b.subrange(j, j + pattern.len())[k] == b[j + k]);
        }
    }
    text::law_replacing_goes_from_left_to_right(a, pattern, b, with);
    text::law_replacing_goes_from_left_to_right(b, pattern, seq![], with);
}

/// What is asked before the part about watched repositories.
pub open spec fn query_start() -> Seq<char> {
    "query {
  search(query: \"is:pr is:open author:@me\", type: ISSUE, first: 100) {
    nodes { ...Pr }
  }
  "@
}

/// What is asked between the part about watched repositories and that about checks.
pub open spec fn query_middle() -> Seq<char> {
    "
}
fragment Pr on PullRequest {
  repository { nameWithOwner }
  author { login }
  title
  url
  updatedAt
  isDraft
  commits(last: 1) { nodes { commit { statusCheckRollup { state "@
}

/// What is asked behind the part about checks.
pub open spec fn query_end() -> Seq<char> {
    " } } } }
}"@
}

/// The query for the open pull requests around its two gaps.
proof fn lemma_query_parts()
    ensures
        QUERY@ == query_start() + "WATCHED"@ + query_middle() + "CONTEXTS"@ + query_end(),
        text::without(query_start(), 'X') && text::without(query_start(), 'H'),
        text::without(query_middle(), 'X') && text::without(query_middle(), 'H'),
        text::without(query_end(), 'X') && text::without(query_end(), 'H'),
{
    reveal_strlit("query {
  search(query: \"is:pr is:open author:@me\", type: ISSUE, first: 100) {
    nodes { ...Pr }
  }
  WATCHED
}
fragment Pr on PullRequest {
  repository { nameWithOwner }
  author { login }
  title
  url
  updatedAt
  isDraft
  commits(last: 1) { nodes { commit { statusCheckRollup { state CONTEXTS } } } }
}");
    reveal_strlit("query {
  search(query: \"is:pr is:open author:@me\", type: ISSUE, first: 100) {
    nodes { ...Pr }
  }
  ");
    reveal_strlit("
}
fragment Pr on PullRequest {
  repository { nameWithOwner }
  author { login }
  title
  url
  updatedAt
  isDraft
  commits(last: 1) { nodes { commit { statusCheckRollup { state ");
    reveal_strlit(" } } } }
}");
    reveal_strlit("WATCHED");
    reveal_strlit("CONTEXTS");
    assert(QUERY@ =~= query_start() + "WATCHED"@ + query_middle() + "CONTEXTS"@ + query_end());
}

/// No gap is named in what is put into one.
proof fn lemma_contexts_have_no_gap()
    ensures
        text::without(CONTEXTS@, 'H'),
{
    reveal_strlit("contexts(first: 100) {
  nodes {
    __typename
    ... on CheckRun {
      name status conclusion detailsUrl
      checkSuite { workflowRun { databaseId workflow { name } } }
    }
    ... on StatusContext { context state targetUrl }
  }
}");
}

/// Texts without a character make a text without it.
proof fn lemma_without(a: Seq<char>, b: Seq<char>, c: char)
    requires
        text::without(a, c),
        text::without(b, c),
    ensures
        text::without(a + b, c),
{
}

/// Two gaps are filled, the second one first.
proof fn lemma_filled(
    start: Seq<char>,
    middle: Seq<char>,
    end: Seq<char>,
    contexts: Seq<char>,
    watched: Seq<char>,
)
    requires
        text::without(start, 'X') && text::without(start, 'H'),
        text::without(middle, 'X') && text::without(middle, 'H'),
        text::without(end, 'X') && text::without(end, 'H'),
        text::without(contexts, 'H'),
    ensures
        text::replace(
            text::replace(
                start + "WATCHED"@ + middle + "CONTEXTS"@ + end,
                "CONTEXTS"@,
                contexts,
            ),
            "WATCHED"@,
            watched,
        ) == start + watched + middle + contexts + end,
{
    let gap = "WATCHED"@;
    let before = start + gap + middle;
    assert(text::without(gap, 'X')) by {
        reveal_strlit("WATCHED");
    }
    lemma_without(start, gap, 'X');
    lemma_without(start + gap, middle, 'X');
    lemma_contexts_filled(before, end, contexts);
    let after = middle + contexts + end;
    lemma_without(middle, contexts, 'H');
    lemma_without(middle + contexts, end, 'H');
    lemma_regroup(start + gap, middle, contexts);
    lemma_regroup(start + gap, middle + contexts, end);
    lemma_watched_filled(start, after, watched);
    lemma_regroup(start + watched, middle, contexts);
    lemma_regroup(start + watched, middle + contexts, end);
}

/// Concatenation can be bracketed in any way.
proof fn lemma_regroup(a: Seq<char>, b: Seq<char>, c: Seq<char>)
    ensures
        (a + b) + c == a + (b + c),
{
    assert((a + b) + c =~= a + (b + c));
}

/// The gap for watched repositories is filled.
proof fn lemma_watched_filled(start: Seq<char>, end: Seq<char>, watched: Seq<char>)
    requires
        text::without(start, 'H'),
        text::without(end, 'H'),
    ensures
        text::replace(start + "WATCHED"@ + end, "WATCHED"@, watched) == start + watched + end,
{
    reveal_strlit("WATCHED");
    assert("WATCHED"@[4] == 'H');
    lemma_replace_once(start, "WATCHED"@, end, watched, 4);
}

/// The query for the open pull requests asks for those of the user, and behind them for what is
/// asked of watched repositories, whatever that is; and for the checks exactly if they are wanted.
pub proof fn law_the_query_is_filled_in(with_checks: bool, watched: Seq<char>)
    ensures
        with_checks ==> open_prs_query(with_checks, watched) == query_start() + watched
            + query_middle() + CONTEXTS@ + query_end(),
        !with_checks ==> open_prs_query(with_checks, watched) == query_start() + watched
            + query_middle() + query_end(),
{
    lemma_query_parts();
    if with_checks {
        lemma_contexts_have_no_gap();
        lemma_filled(query_start(), query_middle(), query_end(), CONTEXTS@, watched);
    } else {
        reveal_strlit("");
        lemma_filled(query_start(), query_middle(), query_end(), ""@, watched);
        let front = query_start() + watched + query_middle();
        assert(front + ""@ =~= front);
    }
}

/// What is asked of one pull request before the part about checks.
pub open spec fn runs_query_start() -> Seq<char> {
    "query($url: URI!) {
  resource(url: $url) {
    ... on PullRequest {
      commits(last: 1) { nodes { commit { statusCheckRollup { state "@
}

/// What is asked of one pull request behind the part about checks.
pub open spec fn runs_query_end() -> Seq<char> {
    " } } } }
    }
  }
}"@
}

/// The query for the runs of one pull request around its gap.
proof fn lemma_runs_query_parts()
    ensures
        PR_RUNS_QUERY@ == runs_query_start() + "CONTEXTS"@ + runs_query_end(),
        text::without(runs_query_start(), 'X'),
        text::without(runs_query_end(), 'X'),
{
    reveal_strlit("query($url: URI!) {
  resource(url: $url) {
    ... on PullRequest {
      commits(last: 1) { nodes { commit { statusCheckRollup { state CONTEXTS } } } }
    }
  }
}");
    reveal_strlit("query($url: URI!) {
  resource(url: $url) {
    ... on PullRequest {
      commits(last: 1) { nodes { commit { statusCheckRollup { state ");
    reveal_strlit(" } } } }
    }
  }
}");
    reveal_strlit("CONTEXTS");
    assert(PR_RUNS_QUERY@ =~= runs_query_start() + "CONTEXTS"@ + runs_query_end());
}

/// The gap for checks is filled.
proof fn lemma_contexts_filled(start: Seq<char>, end: Seq<char>, contexts: Seq<char>)
    requires
        text::without(start, 'X'),
        text::without(end, 'X'),
    ensures
        text::replace(start + "CONTEXTS"@ + end, "CONTEXTS"@, contexts) == start + contexts + end,
{
    reveal_strlit("CONTEXTS");
    assert("CONTEXTS"@[5] == 'X');
    lemma_replace_once(start, "CONTEXTS"@, end, contexts, 5);
}

/// A question with a URL.
proof fn lemma_question_with_url(query: Seq<char>, url: Seq<char>)
    ensures
        graphql(query, seq![("url"@, url)]).args == seq![
            "api"@,
            "graphql"@,
            "-f"@,
            "query="@ + query,
            "-f"@,
            "url"@ + "="@ + url,
        ],
{
    let vars = seq![("url"@, url)];
    law_variables_are_passed_by_name(query, vars, 0);
    let args = graphql(query, vars).args;
    assert forall|i: int| 0 <= i < 4 implies args[i] == args.take(4)[i] by {}
    assert(args =~= seq![
        "api"@,
        "graphql"@,
        "-f"@,
        "query="@ + query,
        "-f"@,
        "url"@ + "="@ + url,
    ]);
}

/// To wait for a pull request or to merge it, it is asked for by its URL: where its head is, and
/// where its CI stands.
pub proof fn law_a_pull_request_is_asked_for_by_url(url: Seq<char>)
    ensures
        pr_info_question(url).program == "gh"@,
        pr_info_question(url).args == seq![
            "api"@,
            "graphql"@,
            "-f"@,
            "query="@ + "query($url: URI!) {
  resource(url: $url) {
    ... on PullRequest {
      title
      repository { nameWithOwner }
      headRefName
      headRefOid
      headRepository { nameWithOwner }
      commits(last: 1) { nodes { commit { statusCheckRollup { state } } } }
    }
  }
}"@,
            "-f"@,
            "url"@ + "="@ + url,
        ],
{
    lemma_question_with_url(PR_INFO_QUERY@, url);
}

/// To run its jobs again, a pull request is asked for by its URL: for its checks.
pub proof fn law_runs_are_asked_for_by_url(url: Seq<char>)
    ensures
        PR_RUNS_QUERY@ == "query($url: URI!) {
  resource(url: $url) {
    ... on PullRequest {
      commits(last: 1) { nodes { commit { statusCheckRollup { state CONTEXTS } } } }
    }
  }
}"@,
        PR_RUNS_QUERY@ == runs_query_start() + "CONTEXTS"@ + runs_query_end(),
        pr_runs_question(url).program == "gh"@,
        pr_runs_question(url).args == seq![
            "api"@,
            "graphql"@,
            "-f"@,
            "query="@ + (runs_query_start() + CONTEXTS@ + runs_query_end()),
            "-f"@,
            "url"@ + "="@ + url,
        ],
{
    lemma_runs_query_parts();
    lemma_contexts_filled(runs_query_start(), runs_query_end(), CONTEXTS@);
    lemma_question_with_url(text::replace(PR_RUNS_QUERY@, "CONTEXTS"@, CONTEXTS@), url);
}

/// A question is passed to `gh` as it is, and each variable behind it, in order, by its name.
pub proof fn law_variables_are_passed_by_name(
    query: Seq<char>,
    vars: Seq<(Seq<char>, Seq<char>)>,
    i: int,
)
    ensures
        ({
            let c = graphql(query, vars);
            &&& c.program == "gh"@
            &&& c.args.len() == 4 + 2 * vars.len()
            &&& c.args.take(4) == seq!["api"@, "graphql"@, "-f"@, "query="@ + query]
            &&& 0 <= i < vars.len() ==> c.args[4 + 2 * i] == "-f"@ && c.args[5 + 2 * i] == vars[i].0
                + "="@ + vars[i].1
        }),
{
    lemma_variable_args(vars, vars.len() as int, i);
    let start = seq!["api"@, "graphql"@, "-f"@, "query="@ + query];
    assert(graphql(query, vars).args.take(4) =~= start);
}

proof fn lemma_variable_args(vars: Seq<(Seq<char>, Seq<char>)>, n: int, i: int)
    requires
        0 <= n <= vars.len(),
    ensures
        variable_args(vars, n).len() == 2 * n,
        0 <= i < n ==> variable_args(vars, n)[2 * i] == "-f"@ && variable_args(vars, n)[2 * i + 1]
            == vars[i].0 + "="@ + vars[i].1,
    decreases n,
{
    if n > 0 {
        lemma_variable_args(vars, n - 1, i);
    }
}

/// A response is what `gh` printed exactly if it was run, ended with success and printed UTF-8;
/// else it is said what went wrong.
pub proof fn law_only_successful_questions_are_answered(output: CommandOutput, reason: String)
    ensures
        response_text(Ok(output)) is Ok <==> output.success && vstd::utf8::valid_utf8(
            output.stdout@,
        ),
        !output.success ==> response_text(Ok(output)) == Err::<Seq<char>, Seq<char>>(
            "`gh api graphql` failed"@,
        ),
        output.success && !vstd::utf8::valid_utf8(output.stdout@) ==> response_text(Ok(output))
            == Err::<Seq<char>, Seq<char>>(
            "gh returned invalid UTF-8: "@ + process::utf8_error(output.stdout@),
        ),
        response_text(Err(reason)) == Err::<Seq<char>, Seq<char>>(
            "failed to run "@ + "gh"@ + ": "@ + reason@,
        ),
{
}

/// Watched repositories are known exactly if the question was answered; what was printed is read
/// line by line.
pub proof fn law_only_answered_subscriptions_are_read(output: CommandOutput, reason: String)
    ensures
        output.success ==> repos_in(Ok(output)) == Ok::<Seq<Seq<char>>, Seq<char>>(
            text::lines(process::printed_text(output.stdout@)),
        ),
        !output.success ==> repos_in(Ok(output)) == Err::<Seq<Seq<char>>, Seq<char>>(
            "`gh api user/subscriptions` failed"@,
        ),
        repos_in(Err(reason)) == Err::<Seq<Seq<char>>, Seq<char>>(
            "failed to run "@ + "gh"@ + ": "@ + reason@,
        ),
{
}

/// The search is for open pull requests of others that were created since the date, in all of the
/// repositories and in their order: one more repository is one more qualifier before the end.
pub proof fn law_the_search_names_repos_in_order(
    date: Seq<char>,
    repos: Seq<Seq<char>>,
    repo: Seq<char>,
)
    ensures
        ({
            let start = "watched: search(query: \"is:pr is:open -author:@me created:>="@ + date;
            let end = "\", type: ISSUE, first: 100) { nodes { ...Pr } }"@;
            &&& search_text(date, seq![]) == start + end
            &&& search_text(date, repos.push(repo)) == search_text(date, repos).take(
                search_text(date, repos).len() - end.len(),
            ) + " repo:"@ + repo + end
            &&& end.is_suffix_of(search_text(date, repos))
        }),
{
    let start = "watched: search(query: \"is:pr is:open -author:@me created:>="@ + date;
    let end = "\", type: ISSUE, first: 100) { nodes { ...Pr } }"@;
    let n = repos.len() as int;
    let longer = repos.push(repo);
    let s = search_text(date, repos);
    assert(search_text(date, seq![]) =~= start + end);
    lemma_same_qualifiers(repos, longer, n);
    assert(s =~= start + repo_qualifiers(repos, n) + end);
    assert(s.take(s.len() - end.len()) =~= start + repo_qualifiers(repos, n));
    assert(s.skip(s.len() - end.len()) =~= end);
    assert(repo_qualifiers(longer, n + 1) == repo_qualifiers(repos, n) + " repo:"@ + repo);
    assert(search_text(date, longer) =~= s.take(s.len() - end.len()) + " repo:"@ + repo + end);
}

proof fn lemma_same_qualifiers(a: Seq<Seq<char>>, b: Seq<Seq<char>>, n: int)
    requires
        0 <= n <= a.len(),
        n <= b.len(),
        forall|i: int| 0 <= i < n ==> a[i] == b[i],
    ensures
        repo_qualifiers(a, n) == repo_qualifiers(b, n),
    decreases n,
{
    if n > 0 {
        lemma_same_qualifiers(a, b, n - 1);
        assert(a[n - 1] == b[n - 1]);
    }
}

/// Pull requests of watched repositories are listed from the day on that was three weeks ago.
pub proof fn law_the_search_goes_back_three_weeks(now: time::Moment, repos: Seq<Seq<char>>)
    requires
        !now.in_leap_second(),
    ensures
        watched_since(now) == calendar::date_of((now.secs - 1_814_400) / 86_400).text(),
        watched_since(now) == calendar::date_of(now.secs / 86_400 - 21).text(),
        repos.len() > 0 ==> watched_text(repos, now) == search_text(watched_since(now), repos),
        repos.len() == 0 ==> watched_text(repos, now).len() == 0,
{
    assert((now.secs - 1_814_400) / 86_400 == now.secs / 86_400 - 21);
}

} // verus!
