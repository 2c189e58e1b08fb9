//! What is made of the responses of GitHub.

use gh_wrapper::ci::{
    Check, CheckContext, CheckSuite, CiStatus, Commit, CommitNode, Commits, Contexts, Rollup,
    Workflow, WorkflowRun,
};
use gh_wrapper::pull_request::{
    parse_failed_run_ids, parse_pr_info, parse_prs, Author, Data, PrInfo, PrNode, Repository,
    Resource, ResourceData, ResourceResponse, Response, Search,
};
use serde_json::Value;

// ---------------------------------------------------------------------------
// Decoding
// ---------------------------------------------------------------------------

fn field<T>(v: &Value, name: &str, read: fn(&Value) -> Result<T, String>) -> Result<T, String> {
    match v.get(name) {
        Some(x) => read(x),
        None => Err(format!("missing field `{name}`")),
    }
}

fn optional<T>(
    v: &Value,
    name: &str,
    read: fn(&Value) -> Result<T, String>,
) -> Result<Option<T>, String> {
    match v.get(name) {
        None | Some(Value::Null) => Ok(None),
        Some(x) => read(x).map(Some),
    }
}

fn nodes<T>(v: &Value, read: fn(&Value) -> Result<T, String>) -> Result<Vec<T>, String> {
    match v.get("nodes").and_then(Value::as_array) {
        Some(list) => list.iter().map(read).collect(),
        None => Err("missing field `nodes`".to_string()),
    }
}

fn string(v: &Value) -> Result<String, String> {
    match v.as_str() {
        Some(s) => Ok(s.to_string()),
        None => Err("expected a string".to_string()),
    }
}

fn boolean(v: &Value) -> Result<bool, String> {
    v.as_bool().ok_or("expected a boolean".to_string())
}

fn number(v: &Value) -> Result<u64, String> {
    v.as_u64().ok_or("expected a number".to_string())
}

fn workflow(v: &Value) -> Result<Workflow, String> {
    Ok(Workflow { name: field(v, "name", string)? })
}

fn workflow_run(v: &Value) -> Result<WorkflowRun, String> {
    Ok(WorkflowRun {
        database_id: field(v, "databaseId", number)?,
        workflow: field(v, "workflow", workflow)?,
    })
}

fn check_suite(v: &Value) -> Result<CheckSuite, String> {
    Ok(CheckSuite { workflow_run: optional(v, "workflowRun", workflow_run)? })
}

fn check_context(v: &Value) -> Result<CheckContext, String> {
    match field(v, "__typename", string)?.as_str() {
        "CheckRun" => Ok(CheckContext::CheckRun {
            name: field(v, "name", string)?,
            status: field(v, "status", string)?,
            conclusion: optional(v, "conclusion", string)?,
            details_url: optional(v, "detailsUrl", string)?,
            check_suite: optional(v, "checkSuite", check_suite)?,
        }),
        "StatusContext" => Ok(CheckContext::StatusContext {
            context: field(v, "context", string)?,
            state: field(v, "state", string)?,
            target_url: optional(v, "targetUrl", string)?,
        }),
        other => Err(format!("unknown variant `{other}`")),
    }
}

fn contexts(v: &Value) -> Result<Contexts, String> {
    Ok(Contexts { nodes: nodes(v, check_context)? })
}

fn rollup(v: &Value) -> Result<Rollup, String> {
    Ok(Rollup {
        state: field(v, "state", string)?,
        contexts: optional(v, "contexts", contexts)?,
    })
}

fn commit(v: &Value) -> Result<Commit, String> {
    Ok(Commit { status_check_rollup: optional(v, "statusCheckRollup", rollup)? })
}

fn commit_node(v: &Value) -> Result<CommitNode, String> {
    Ok(CommitNode { commit: field(v, "commit", commit)? })
}

fn commits(v: &Value) -> Result<Commits, String> {
    Ok(Commits { nodes: nodes(v, commit_node)? })
}

fn repository(v: &Value) -> Result<Repository, String> {
    Ok(Repository { name_with_owner: field(v, "nameWithOwner", string)? })
}

fn author(v: &Value) -> Result<Author, String> {
    Ok(Author { login: field(v, "login", string)? })
}

fn node(v: &Value) -> Result<PrNode, String> {
    Ok(PrNode {
        repository: field(v, "repository", repository)?,
        author: optional(v, "author", author)?,
        title: field(v, "title", string)?,
        url: field(v, "url", string)?,
        updated_at: field(v, "updatedAt", string)?,
        is_draft: field(v, "isDraft", boolean)?,
        commits: field(v, "commits", commits)?,
    })
}

fn search(v: &Value) -> Result<Search, String> {
    Ok(Search { nodes: nodes(v, node)? })
}

fn data(v: &Value) -> Result<Data, String> {
    Ok(Data {
        search: field(v, "search", search)?,
        watched: optional(v, "watched", search)?,
    })
}

fn resource(v: &Value) -> Result<Resource, String> {
    Ok(Resource {
        title: optional(v, "title", string)?,
        repository: optional(v, "repository", repository)?,
        head_ref_name: optional(v, "headRefName", string)?,
        head_ref_oid: optional(v, "headRefOid", string)?,
        head_repository: optional(v, "headRepository", repository)?,
        commits: optional(v, "commits", commits)?,
    })
}

fn resource_data(v: &Value) -> Result<ResourceData, String> {
    Ok(ResourceData { resource: optional(v, "resource", resource)? })
}

fn decode(json: &str) -> Result<Response, String> {
    let v: Value = serde_json::from_str(json).map_err(|e| e.to_string())?;
    Ok(Response { data: field(&v, "data", data)? })
}

fn decode_resource(json: &str) -> Result<ResourceResponse, String> {
    let v: Value = serde_json::from_str(json).map_err(|e| e.to_string())?;
    Ok(ResourceResponse { data: field(&v, "data", resource_data)? })
}

// ---------------------------------------------------------------------------
// Lists of pull requests
// ---------------------------------------------------------------------------

fn pr_node(title: &str, updated_at: &str, state: Option<&str>) -> String {
    let rollup = match state {
        Some(s) => format!(r#"{{"state":"{s}"}}"#),
        None => "null".to_string(),
    };
    format!(
        r#"{{"repository":{{"nameWithOwner":"o/r"}},"author":{{"login":"me"}},"title":"{title}","url":"https://a/{title}","updatedAt":"{updated_at}","isDraft":false,
            "commits":{{"nodes":[{{"commit":{{"statusCheckRollup":{rollup}}}}}]}}}}"#
    )
}

fn response(nodes: &[String]) -> String {
    format!(
        r#"{{"data":{{"search":{{"nodes":[{}]}}}}}}"#,
        nodes.join(",")
    )
}

#[test]
fn parse_prs_sorts_most_recent_first() {
    let json = response(&[
        pr_node("old", "2026-01-01T00:00:00Z", None),
        pr_node("new", "2026-09-24T20:16:53Z", None),
        pr_node("mid", "2026-07-31T10:37:06Z", None),
    ]);
    let titles: Vec<_> = parse_prs(decode(&json))
        .unwrap()
        .into_iter()
        .map(|pr| pr.title)
        .collect();
    assert_eq!(titles, ["new", "mid", "old"]);
}

#[test]
fn parse_prs_ci_status() {
    let json = response(&[
        pr_node("a", "2026-01-06T00:00:00Z", Some("SUCCESS")),
        pr_node("b", "2026-01-05T00:00:00Z", Some("FAILURE")),
        pr_node("c", "2026-01-04T00:00:00Z", Some("ERROR")),
        pr_node("d", "2026-01-03T00:00:00Z", Some("PENDING")),
        pr_node("e", "2026-01-02T00:00:00Z", Some("EXPECTED")),
        pr_node("f", "2026-01-01T00:00:00Z", None),
    ]);
    let statuses: Vec<_> = parse_prs(decode(&json))
        .unwrap()
        .into_iter()
        .map(|pr| pr.ci)
        .collect();
    assert_eq!(
        statuses,
        [
            CiStatus::Success,
            CiStatus::Failure,
            CiStatus::Failure,
            CiStatus::Running,
            CiStatus::Running,
            CiStatus::NoChecks,
        ]
    );
}

#[test]
fn parse_prs_empty() {
    assert!(parse_prs(decode(&response(&[]))).unwrap().is_empty());
}

#[test]
fn parse_prs_invalid() {
    assert!(parse_prs(decode("not json")).is_err());
}

#[test]
fn parse_prs_says_why_it_failed() {
    assert_eq!(
        parse_prs(Err("expected value at line 1 column 1".to_string())),
        Err("failed to parse gh output: expected value at line 1 column 1".to_string())
    );
}

#[test]
fn parse_prs_keeps_the_order_of_equal_times() {
    let json = response(&[
        pr_node("a", "2026-01-02T00:00:00Z", None),
        pr_node("b", "2026-01-01T00:00:00Z", None),
        pr_node("c", "2026-01-02T00:00:00Z", None),
        pr_node("d", "2026-01-03T00:00:00Z", None),
        pr_node("e", "2026-01-01T00:00:00Z", None),
        pr_node("f", "2026-01-02T00:00:00Z", None),
    ]);
    let titles: Vec<_> = parse_prs(decode(&json))
        .unwrap()
        .into_iter()
        .map(|pr| pr.title)
        .collect();
    assert_eq!(titles, ["d", "a", "c", "f", "b", "e"]);
}

#[test]
fn parse_prs_reads_every_field() {
    let json = response(&[r#"{"repository":{"nameWithOwner":"o/r"},"author":null,"title":"t",
        "url":"https://a/1","updatedAt":"2026-01-01T00:00:00Z","isDraft":true,
        "commits":{"nodes":[]}}"#
        .to_string()]);
    let prs = parse_prs(decode(&json)).unwrap();
    assert_eq!(prs.len(), 1);
    assert_eq!(prs[0].repo, "o/r");
    assert_eq!(prs[0].author, "ghost");
    assert_eq!(prs[0].title, "t");
    assert_eq!(prs[0].url, "https://a/1");
    assert_eq!(prs[0].updated_at, "2026-01-01T00:00:00Z");
    assert_eq!(prs[0].ci, CiStatus::NoChecks);
    assert!(prs[0].is_draft);
    assert_eq!(prs[0].checks, []);
}

#[test]
fn parse_prs_merges_watched() {
    let node = |title: &str, author: &str, updated_at: &str| {
        format!(
            r#"{{"repository":{{"nameWithOwner":"o/r"}},"author":{{"login":"{author}"}},"title":"{title}",
                "url":"https://a/{title}","updatedAt":"{updated_at}","isDraft":false,"commits":{{"nodes":[]}}}}"#
        )
    };
    let json = format!(
        r#"{{"data":{{"search":{{"nodes":[{}]}},"watched":{{"nodes":[{}]}}}}}}"#,
        node("mine", "me", "2026-09-01T00:00:00Z"),
        node("theirs", "bob", "2026-09-02T00:00:00Z"),
    );
    let prs: Vec<_> = parse_prs(decode(&json))
        .unwrap()
        .into_iter()
        .map(|pr| (pr.title, pr.author))
        .collect();
    assert_eq!(
        prs,
        [
            ("theirs".into(), "bob".into()),
            ("mine".into(), "me".into())
        ]
    );
}

#[test]
fn parse_prs_keeps_only_failed_or_running_checks() {
    let json = r#"{"data":{"search":{"nodes":[{"repository":{"nameWithOwner":"o/r"},
        "author":null,"title":"t","url":"https://a/1","updatedAt":"2026-01-01T00:00:00Z","isDraft":false,
        "commits":{"nodes":[{"commit":{"statusCheckRollup":{"state":"FAILURE","contexts":{"nodes":[
            {"__typename":"CheckRun","name":"ok","status":"COMPLETED","conclusion":"SUCCESS","detailsUrl":"u1","checkSuite":null},
            {"__typename":"CheckRun","name":"skipped","status":"COMPLETED","conclusion":"SKIPPED","detailsUrl":"u2","checkSuite":null},
            {"__typename":"CheckRun","name":"build","status":"COMPLETED","conclusion":"TIMED_OUT","detailsUrl":"u3",
                "checkSuite":{"workflowRun":{"databaseId":1,"workflow":{"name":"CI"}}}},
            {"__typename":"CheckRun","name":"cancelled","status":"COMPLETED","conclusion":"CANCELLED","detailsUrl":"u6","checkSuite":null},
            {"__typename":"CheckRun","name":"test","status":"QUEUED","conclusion":null,"detailsUrl":null,"checkSuite":null},
            {"__typename":"StatusContext","context":"ext/ci","state":"ERROR","targetUrl":"u5"},
            {"__typename":"StatusContext","context":"ext/ok","state":"SUCCESS","targetUrl":null}
        ]}}}}]}}]}}}"#;
    let prs = parse_prs(decode(json)).unwrap();
    assert_eq!(
        prs[0].checks,
        [
            Check {
                name: "CI / build (timed out)".into(),
                ci: CiStatus::Failure,
                url: "u3".into(),
            },
            Check {
                name: "ext/ci".into(),
                ci: CiStatus::Failure,
                url: "u5".into(),
            },
            Check {
                name: "test".into(),
                ci: CiStatus::Running,
                url: "".into(),
            },
        ]
    );
}

// ---------------------------------------------------------------------------
// Single pull requests
// ---------------------------------------------------------------------------

#[test]
fn parse_pr_info_reads_head_and_ci() {
    let json = r#"{"data":{"resource":{"title":"t","repository":{"nameWithOwner":"o/r"},
        "headRefName":"feat/x","headRefOid":"abc123","headRepository":{"nameWithOwner":"o/r"},
        "commits":{"nodes":[{"commit":{"statusCheckRollup":{"state":"SUCCESS"}}}]}}}}"#;
    assert_eq!(
        parse_pr_info(decode_resource(json)),
        Ok(PrInfo {
            ci: CiStatus::Success,
            title: "t".into(),
            repo: "o/r".into(),
            head_branch: "feat/x".into(),
            head_oid: "abc123".into(),
            head_repo: Some("o/r".into()),
        })
    );

    let json = r#"{"data":{"resource":{"title":"t","repository":{"nameWithOwner":"o/r"},
        "headRefName":"feat/x","headRefOid":"abc123","headRepository":null,
        "commits":{"nodes":[{"commit":{"statusCheckRollup":null}}]}}}}"#;
    let pr = parse_pr_info(decode_resource(json)).unwrap();
    assert_eq!(pr.ci, CiStatus::NoChecks);
    assert_eq!(pr.head_repo, None);
}

#[test]
fn parse_pr_info_rejects_non_pr_urls() {
    assert!(parse_pr_info(decode_resource(r#"{"data":{"resource":null}}"#)).is_err());
    assert!(parse_pr_info(decode_resource(r#"{"data":{"resource":{}}}"#)).is_err());
}

#[test]
fn parse_pr_info_says_why_it_failed() {
    assert_eq!(
        parse_pr_info(decode_resource(r#"{"data":{"resource":null}}"#)),
        Err("not a pull request URL".to_string())
    );
    // Only the head commit's oid is missing.
    let json = r#"{"data":{"resource":{"title":"t","repository":{"nameWithOwner":"o/r"},
        "headRefName":"feat/x","commits":{"nodes":[]}}}}"#;
    assert_eq!(
        parse_pr_info(decode_resource(json)),
        Err("not a pull request URL".to_string())
    );
    assert_eq!(
        parse_pr_info(Err("trailing comma".to_string())),
        Err("failed to parse gh output: trailing comma".to_string())
    );
}

#[test]
fn parse_failed_run_ids_includes_cancelled_and_dedups() {
    let job = |run: u64, status: &str, conclusion: &str| {
        format!(
            r#"{{"__typename":"CheckRun","name":"j","status":"{status}","conclusion":{conclusion},
            "detailsUrl":null,"checkSuite":{{"workflowRun":{{"databaseId":{run},"workflow":{{"name":"w"}}}}}}}}"#
        )
    };
    let contexts = [
        job(1, "COMPLETED", r#""SUCCESS""#),
        job(2, "COMPLETED", r#""FAILURE""#),
        job(3, "COMPLETED", r#""CANCELLED""#),
        job(2, "COMPLETED", r#""TIMED_OUT""#),
        job(4, "IN_PROGRESS", "null"),
        job(5, "COMPLETED", r#""SKIPPED""#),
        r#"{"__typename":"StatusContext","context":"c","state":"FAILURE","targetUrl":null}"#
            .to_string(),
    ]
    .join(",");
    let json = format!(
        r#"{{"data":{{"resource":{{"commits":{{"nodes":[{{"commit":{{"statusCheckRollup":
        {{"state":"FAILURE","contexts":{{"nodes":[{contexts}]}}}}}}}}]}}}}}}}}"#
    );
    assert_eq!(parse_failed_run_ids(decode_resource(&json)), Ok(vec![2, 3]));
    assert!(parse_failed_run_ids(decode_resource(r#"{"data":{"resource":{}}}"#)).is_err());
}

#[test]
fn parse_failed_run_ids_says_why_it_failed() {
    assert_eq!(
        parse_failed_run_ids(decode_resource(r#"{"data":{"resource":null}}"#)),
        Err("not a pull request URL".to_string())
    );
    assert_eq!(
        parse_failed_run_ids(decode_resource(r#"{"data":{"resource":{}}}"#)),
        Err("not a pull request URL".to_string())
    );
    assert_eq!(
        parse_failed_run_ids(Err("EOF".to_string())),
        Err("failed to parse gh output: EOF".to_string())
    );
    let json = r#"{"data":{"resource":{"commits":{"nodes":[]}}}}"#;
    assert_eq!(parse_failed_run_ids(decode_resource(json)), Ok(vec![]));
}
