//! The command line and the questions to `gh`.

use gh_wrapper::cli::{
    auth_command, closing_message, gh_authenticated, gh_installed, parse_args, version_command,
    Invocation, USAGE,
};
use gh_wrapper::process::{CommandOutput, Message};
use gh_wrapper::query::{
    graphql_command, graphql_response, list_open_prs, pr_info_command, pr_runs_command,
    subscriptions_command, watched_part, watched_repos, CONTEXTS, PR_INFO_QUERY,
};
use gh_wrapper::time::Timestamp;

fn parse(args: &[&str]) -> Option<Invocation> {
    let args: Vec<String> = args.iter().map(|a| a.to_string()).collect();
    parse_args(&args)
}

#[test]
fn subcommands_take_one_argument() {
    let url = || "https://a/1".to_string();
    assert_eq!(parse(&["merge", "https://a/1"]), Some(Invocation::Merge(url())));
    assert_eq!(parse(&["rebase", "https://a/1"]), Some(Invocation::Rebase(url())));
    assert_eq!(parse(&["wait", "https://a/1"]), Some(Invocation::Wait(url())));
    assert_eq!(parse(&["rerun", "https://a/1"]), Some(Invocation::Rerun(url())));
    assert_eq!(parse(&["pr", "feat"]), Some(Invocation::Pr("feat".to_string())));
    assert_eq!(
        parse(&["merge", "--draft"]),
        Some(Invocation::Merge("--draft".to_string()))
    );
    assert_eq!(parse(&["merge"]), None);
    assert_eq!(parse(&["merge", "a", "b"]), None);
    assert_eq!(parse(&["help", "me"]), None);
}

#[test]
fn without_a_subcommand_pull_requests_are_listed() {
    let list = |actions, draft, watched| Some(Invocation::List { actions, draft, watched });
    assert_eq!(parse(&[]), list(false, false, false));
    assert_eq!(parse(&["--actions"]), list(true, false, false));
    assert_eq!(parse(&["--watched", "--draft"]), list(false, true, true));
    assert_eq!(parse(&["--draft", "--watched"]), list(false, true, true));
    assert_eq!(parse(&["--draft", "--draft", "--actions"]), list(true, true, false));
    assert_eq!(parse(&["--draft", "--all"]), None);
    assert_eq!(parse(&["--draft", "merge"]), None);
    assert_eq!(parse(&[""]), None);
}

#[test]
fn the_usage_names_everything() {
    assert_eq!(
        USAGE,
        "usage: gh_wrapper [--actions] [--draft] [--watched] | merge <pr-url> | rebase <pr-url> \
         | wait <pr-url> | rerun <pr-run-or-job-url> | pr <branch>"
    );
}

#[test]
fn gh_has_to_be_there() {
    assert_eq!(version_command().program, "gh");
    assert_eq!(version_command().args, ["--version"]);
    let missing = Err("`gh` is not installed. See https://cli.github.com/".to_string());
    assert_eq!(gh_installed(Ok(true)), Ok(()));
    assert_eq!(gh_installed(Ok(false)), missing);
    assert_eq!(gh_installed(Err("x".to_string())), missing);

    assert_eq!(auth_command().program, "gh");
    assert_eq!(auth_command().args, ["auth", "status"]);
    let unknown = Err("`gh` is not authenticated. Run:\n\n    gh auth login\n".to_string());
    assert_eq!(gh_authenticated(Ok(true)), Ok(()));
    assert_eq!(gh_authenticated(Ok(false)), unknown);
    assert_eq!(gh_authenticated(Err("x".to_string())), unknown);
}

#[test]
fn errors_are_told_at_the_end() {
    assert_eq!(closing_message(Ok(())), None);
    assert_eq!(
        closing_message(Err("CI failed".to_string())),
        Some(Message::Warn("error: CI failed".to_string()))
    );
}

#[test]
fn variables_are_passed_as_strings() {
    let c = graphql_command("query { x }", &[("a", "1"), ("b", "x=y")]);
    assert_eq!(c.program, "gh");
    assert_eq!(
        c.args,
        ["api", "graphql", "-f", "query=query { x }", "-f", "a=1", "-f", "b=x=y"]
    );
    assert_eq!(graphql_command("", &[]).args, ["api", "graphql", "-f", "query="]);
}

#[test]
fn queries_have_no_placeholders_left() {
    let query = |c: gh_wrapper::process::Command| c.args[3].clone();
    let plain = query(list_open_prs(false, ""));
    assert_eq!(
        plain,
        "query=query {
  search(query: \"is:pr is:open author:@me\", type: ISSUE, first: 100) {
    nodes { ...Pr }
  }
  
}
fragment Pr on PullRequest {
  repository { nameWithOwner }
  author { login }
  title
  url
  updatedAt
  isDraft
  commits(last: 1) { nodes { commit { statusCheckRollup { state  } } } }
}"
    );
    let full = query(list_open_prs(true, "watched: x"));
    assert!(full.contains("  watched: x\n}"));
    assert!(full.contains(&format!("statusCheckRollup {{ state {CONTEXTS} }}")));
    assert!(!full.contains("WATCHED") && !full.contains("CONTEXTS"));
    let runs = pr_runs_command("https://a/1");
    assert_eq!(runs.args[4..], ["-f", "url=https://a/1"]);
    let runs = query(runs);
    assert!(runs.contains(CONTEXTS) && !runs.contains("CONTEXTS"));
}

#[test]
fn contexts_are_asked_for_with_their_runs() {
    assert_eq!(
        CONTEXTS,
        "contexts(first: 100) {
  nodes {
    __typename
    ... on CheckRun {
      name status conclusion detailsUrl
      checkSuite { workflowRun { databaseId workflow { name } } }
    }
    ... on StatusContext { context state targetUrl }
  }
}"
    );
}

#[test]
fn one_pull_request_is_asked_for_by_its_url() {
    let c = pr_info_command("https://a/1");
    assert_eq!(c.args[3], format!("query={PR_INFO_QUERY}"));
    assert_eq!(c.args[4..], ["-f", "url=https://a/1"]);
}

fn output(success: bool, stdout: &[u8]) -> Result<CommandOutput, String> {
    Ok(CommandOutput { success, stdout: stdout.to_vec(), stderr: vec![] })
}

#[test]
fn responses_are_utf8() {
    assert_eq!(graphql_response(output(true, "{ä}".as_bytes())), Ok("{ä}".to_string()));
    assert_eq!(
        graphql_response(output(true, b"a\xffb")),
        Err("gh returned invalid UTF-8: invalid utf-8 sequence of 1 bytes from index 1".to_string())
    );
    assert_eq!(
        graphql_response(output(false, b"{}")),
        Err("`gh api graphql` failed".to_string())
    );
    assert_eq!(
        graphql_response(Err("gone".to_string())),
        Err("failed to run gh: gone".to_string())
    );
}

#[test]
fn watched_repos_are_read_line_by_line() {
    let c = subscriptions_command();
    assert_eq!(c.program, "gh");
    assert_eq!(
        c.args,
        ["api", "user/subscriptions?per_page=100", "--paginate", "--jq", ".[].full_name"]
    );
    let read = |stdout: &[u8]| watched_repos(output(true, stdout)).unwrap();
    assert_eq!(read(b"o/a\no/b\n"), ["o/a", "o/b"]);
    assert_eq!(read(b"o/a\r\n\no/b"), ["o/a", "", "o/b"]);
    assert_eq!(read(b"o/\xff\n"), ["o/\u{fffd}"]);
    assert_eq!(read(b""), Vec::<String>::new());
    assert_eq!(
        watched_repos(output(false, b"o/a\n")),
        Err("`gh api user/subscriptions` failed".to_string())
    );
    assert_eq!(
        watched_repos(Err("gone".to_string())),
        Err("failed to run gh: gone".to_string())
    );
}

#[test]
fn the_watched_search_never_covers_all_of_github() {
    let now = Timestamp::parse("2026-01-10T00:00:00Z").unwrap();
    assert_eq!(watched_part(&[], now), "");
    assert_eq!(
        watched_part(&["o/a".to_string()], now),
        "watched: search(query: \"is:pr is:open -author:@me created:>=2025-12-20 repo:o/a\", \
         type: ISSUE, first: 100) { nodes { ...Pr } }"
    );
}
