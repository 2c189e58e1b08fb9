//! Listing pull requests: what is hidden, how times are worded, and the table.

use gh_wrapper::ci::{Check, CiStatus, Commits};
use gh_wrapper::cli::{list, list_command, watched_request};
use gh_wrapper::pull_request::{
    filter_prs, is_hidden, is_hidden_since, Author, Data, PrNode, PullRequest, Repository,
    Response, Search,
};
use gh_wrapper::query::{subscriptions_command, watched_search};
use gh_wrapper::table::{format_table, layout_table};
use gh_wrapper::time::{relative_time, Timestamp};

fn now() -> Timestamp {
    Timestamp::parse("2026-09-24T21:00:00Z").unwrap()
}

fn pr(title: &str, updated_at: &str) -> PullRequest {
    PullRequest {
        repo: "o/r".into(),
        author: "me".into(),
        title: title.into(),
        url: "https://a/1".into(),
        updated_at: updated_at.into(),
        ci: CiStatus::NoChecks,
        is_draft: false,
        checks: vec![],
    }
}

#[test]
fn filter_prs_hides_stale_release_prs() {
    let prs = vec![
        pr("chore: release v1", "2026-05-02T10:32:51Z"),
        pr("chore: release v2", "2026-09-20T00:00:00Z"),
        pr("feat: old but not a release", "2025-01-01T00:00:00Z"),
    ];
    let titles: Vec<_> = filter_prs(prs, now(), false)
        .into_iter()
        .map(|pr| pr.title)
        .collect();
    assert_eq!(titles, ["chore: release v2", "feat: old but not a release"]);
}

#[test]
fn filter_prs_hides_drafts() {
    let prs = vec![
        PullRequest {
            is_draft: true,
            ..pr("draft", "2026-09-24T20:00:00Z")
        },
        pr("ready", "2026-09-24T20:00:00Z"),
    ];
    let titles: Vec<_> = filter_prs(prs, now(), false)
        .into_iter()
        .map(|pr| pr.title)
        .collect();
    assert_eq!(titles, ["ready"]);
}

#[test]
fn filter_prs_shows_drafts_when_asked() {
    let prs = vec![
        PullRequest {
            is_draft: true,
            ..pr("draft", "2026-09-24T20:00:00Z")
        },
        pr("ready", "2026-09-24T20:00:00Z"),
    ];
    let titles: Vec<_> = filter_prs(prs, now(), true)
        .into_iter()
        .map(|pr| pr.title)
        .collect();
    assert_eq!(titles, ["draft", "ready"]);
}

#[test]
fn releases_are_stale_after_thirty_days() {
    let release = |updated_at: &str| pr("chore: release v1", updated_at);
    assert!(is_hidden(&release("2026-08-25T21:00:00Z"), now(), false));
    assert!(is_hidden(&release("2026-08-25T20:59:59Z"), now(), true));
    assert!(!is_hidden(&release("2026-08-25T21:00:00.000000001Z"), now(), false));
    assert!(!is_hidden(&release("2026-08-25T21:00:01Z"), now(), false));
    // The time zone counts.
    assert!(!is_hidden(&release("2026-08-25T20:30:00-01:00"), now(), false));
    // Nothing is known of the age.
    assert!(!is_hidden(&release("long ago"), now(), false));
    // The title only has to start in this way.
    assert!(!is_hidden(&pr("a chore: release", "2020-01-01T00:00:00Z"), now(), false));
    assert!(is_hidden(&pr("chore: released", "2020-01-01T00:00:00Z"), now(), false));
}

#[test]
fn stale_draft_releases_are_shown_with_drafts() {
    let draft = PullRequest {
        is_draft: true,
        ..pr("chore: release v1", "2020-01-01T00:00:00Z")
    };
    assert!(!is_hidden(&draft, now(), true));
    assert!(is_hidden(&draft, now(), false));
}

#[test]
fn hiding_takes_the_time_as_an_argument() {
    let release = pr("chore: release v1", "");
    let at = |s: &str| Timestamp::parse(s);
    assert!(is_hidden_since(&release, at("2026-08-01T00:00:00Z"), now(), false));
    assert!(!is_hidden_since(&release, at("2026-09-01T00:00:00Z"), now(), false));
    assert!(!is_hidden_since(&release, None, now(), false));
}

#[test]
fn hiding_keeps_the_order() {
    let prs = vec![
        pr("c", "2026-09-24T20:00:00Z"),
        pr("chore: release v1", "2020-01-01T00:00:00Z"),
        pr("a", "2026-09-24T20:00:00Z"),
        pr("b", "2026-09-24T20:00:00Z"),
    ];
    let titles: Vec<_> = filter_prs(prs, now(), false)
        .into_iter()
        .map(|pr| pr.title)
        .collect();
    assert_eq!(titles, ["c", "a", "b"]);
}

#[test]
fn relative_time_rounds_to_largest_unit() {
    let cases = [
        ("2026-09-24T20:59:50Z", "now"),
        ("2026-09-24T20:16:53Z", "43 minutes ago"),
        ("2026-09-24T19:00:00Z", "2 hours ago"),
        ("2026-09-23T20:00:00Z", "a day ago"),
        ("2026-09-10T20:00:00Z", "2 weeks ago"),
        ("2026-07-31T10:37:06Z", "2 months ago"),
        ("2024-10-26T22:03:57Z", "2 years ago"),
        ("garbage", "garbage"),
    ];
    for (timestamp, expected) in cases {
        assert_eq!(relative_time(timestamp, now()), expected, "{timestamp}");
    }
}

#[test]
fn format_table_aligns_columns() {
    let prs = [
        PullRequest {
            repo: "KDAB/KDDockWidgets".into(),
            title: "short".into(),
            url: "https://a/1".into(),
            updated_at: "2026-09-24T20:16:53Z".into(),
            ci: CiStatus::Success,
            is_draft: true,
            checks: vec![],
            ..pr("", "")
        },
        PullRequest {
            title: "a longer title".into(),
            url: "https://a/22".into(),
            updated_at: "2026-07-31T10:37:06Z".into(),
            ci: CiStatus::Running,
            checks: vec![
                Check {
                    name: "CI / build".into(),
                    ci: CiStatus::Failure,
                    url: "https://a/job/1".into(),
                },
                Check {
                    name: "lint".into(),
                    ci: CiStatus::Running,
                    url: "".into(),
                },
            ],
            ..pr("", "")
        },
    ];
    let expected = "\
CI  REPO                TITLE           URL           LAST UPDATED
🟢  KDAB/KDDockWidgets  short (draft)   https://a/1   43 minutes ago
🟡  o/r                 a longer title  https://a/22  2 months ago
    🔴 CI / build  https://a/job/1
    🟡 lint
";
    assert_eq!(format_table(&prs, now(), false), expected);

    let expected = "\
CI  REPO                AUTHOR  TITLE          URL          LAST UPDATED
🟢  KDAB/KDDockWidgets  me      short (draft)  https://a/1  43 minutes ago
";
    assert_eq!(format_table(&prs[..1], now(), true), expected);
}

#[test]
fn an_empty_table_has_its_header() {
    assert_eq!(
        format_table(&[], now(), false),
        "CI  REPO  TITLE  URL  LAST UPDATED\n"
    );
    assert_eq!(
        format_table(&[], now(), true),
        "CI  REPO  AUTHOR  TITLE  URL  LAST UPDATED\n"
    );
}

#[test]
fn columns_are_as_wide_as_their_longest_cell_in_characters() {
    let prs = [
        PullRequest { title: "äöü€".into(), ci: CiStatus::Failure, ..pr("", "") },
        PullRequest { title: "abcdefg".into(), ..pr("", "") },
    ];
    let ages = ["x".to_string(), "yy".to_string()];
    assert_eq!(
        layout_table(&prs, &ages, false),
        "\
CI  REPO  TITLE    URL          LAST UPDATED
🔴  o/r   äöü€     https://a/1  x
    o/r   abcdefg  https://a/1  yy
"
    );
}

#[test]
fn rows_have_no_trailing_space() {
    let prs = [pr("t", ""), pr("title", "")];
    let ages = ["".to_string(), "now".to_string()];
    assert_eq!(
        layout_table(&prs, &ages, false),
        "\
CI  REPO  TITLE  URL          LAST UPDATED
    o/r   t      https://a/1
    o/r   title  https://a/1  now
"
    );
}

#[test]
fn every_pull_request_has_a_row() {
    let blank = || PullRequest {
        repo: "".into(),
        author: "".into(),
        url: "".into(),
        ..pr("", "")
    };
    let shown = format_table(&[blank()], now(), false);
    assert_eq!(shown, "CI  REPO  TITLE  URL  LAST UPDATED\n\n");
    assert_eq!(shown.lines().count(), 2);

    let failed = Check { name: "a".into(), ci: CiStatus::Failure, url: "u".into() };
    let prs = [blank(), PullRequest { checks: vec![failed], ..blank() }, pr("t", "x")];
    assert_eq!(
        format_table(&prs, now(), true),
        "\
CI  REPO  AUTHOR  TITLE  URL          LAST UPDATED


    🔴 a  u
    o/r   me      t      https://a/1  x
"
    );
}

#[test]
fn check_names_are_aligned_for_each_pull_request() {
    let check = |name: &str, url: &str| Check {
        name: name.into(),
        ci: CiStatus::Failure,
        url: url.into(),
    };
    let prs = [
        PullRequest {
            ci: CiStatus::Failure,
            checks: vec![check("a", "u1"), check("bbb", "u2")],
            ..pr("t", "")
        },
        PullRequest {
            ci: CiStatus::Failure,
            checks: vec![check("cc", "u3")],
            ..pr("t", "")
        },
    ];
    let ages = ["x".to_string(), "x".to_string()];
    assert_eq!(
        layout_table(&prs, &ages, false),
        "\
CI  REPO  TITLE  URL          LAST UPDATED
🔴  o/r   t      https://a/1  x
    🔴 a    u1
    🔴 bbb  u2
🔴  o/r   t      https://a/1  x
    🔴 cc  u3
"
    );
}

#[test]
fn watched_search_lists_repos_and_cutoff() {
    let repos = ["o/a".to_string(), "o/b".to_string()];
    assert_eq!(
        watched_search(&repos, now()),
        "watched: search(query: \"is:pr is:open -author:@me created:>=2026-09-03 repo:o/a repo:o/b\", \
         type: ISSUE, first: 100) { nodes { ...Pr } }"
    );
}

fn node(title: &str, author: &str, updated_at: &str) -> PrNode {
    PrNode {
        repository: Repository { name_with_owner: "o/r".into() },
        author: Some(Author { login: author.into() }),
        title: title.into(),
        url: format!("https://a/{title}"),
        updated_at: updated_at.into(),
        is_draft: false,
        commits: Commits { nodes: vec![] },
    }
}

fn reported() -> Response {
    Response {
        data: Data {
            search: Search { nodes: vec![node("mine", "me", "2026-09-24T20:16:53Z")] },
            watched: Some(Search {
                nodes: vec![
                    node("theirs", "bob", "2026-09-24T20:59:50Z"),
                    node("chore: release", "bot", "2026-01-01T00:00:00Z"),
                ],
            }),
        },
    }
}

#[test]
fn list_sorts_hides_and_formats() {
    assert_eq!(
        list(Ok(reported()), now(), false, true).unwrap(),
        "\
CI  REPO  AUTHOR  TITLE   URL               LAST UPDATED
    o/r   bob     theirs  https://a/theirs  now
    o/r   me      mine    https://a/mine    43 minutes ago
"
    );
    assert_eq!(
        list(Err("no JSON".to_string()), now(), false, true),
        Err("failed to parse gh output: no JSON".to_string())
    );
}

#[test]
fn the_author_column_goes_with_watched() {
    let empty = || Response {
        data: Data { search: Search { nodes: vec![] }, watched: None },
    };
    assert_eq!(
        list(Ok(empty()), now(), false, true).unwrap(),
        "CI  REPO  AUTHOR  TITLE  URL  LAST UPDATED\n"
    );
    assert_eq!(
        list(Ok(empty()), now(), false, false).unwrap(),
        "CI  REPO  TITLE  URL  LAST UPDATED\n"
    );
    let shown = list(Ok(reported()), now(), false, false).unwrap();
    assert!(!shown.lines().next().unwrap().contains("AUTHOR"));
}

#[test]
fn watched_repos_are_asked_for_only_if_wanted() {
    assert_eq!(watched_request(false), None);
    assert_eq!(watched_request(true), Some(subscriptions_command()));
}

#[test]
fn list_asks_for_watched_repos_only_if_there_are_some() {
    let query = |with_watched: bool, watched: Vec<String>| {
        list_command(false, with_watched, Ok(watched), now()).unwrap().args[3].clone()
    };
    let without = query(true, vec![]);
    assert!(!without.contains("watched"));
    assert!(!without.contains("WATCHED"));
    let with = query(true, vec!["o/a".to_string()]);
    assert!(with.contains("created:>=2026-09-03 repo:o/a\""));
    let error = || Err("`gh api user/subscriptions` failed".to_string());
    assert_eq!(
        list_command(false, true, error(), now()),
        Err("`gh api user/subscriptions` failed".to_string())
    );
    // Without the flag, nothing about watched repositories matters.
    assert_eq!(query(false, vec!["o/a".to_string()]), without);
    assert_eq!(list_command(false, false, error(), now()).unwrap().args[3], without);
}
