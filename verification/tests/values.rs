//! Texts, numbers, moments and checks.

use chrono::{DateTime, TimeDelta, Utc};
use gh_wrapper::ci::{
    is_passing, with_reason, Check, CheckContext, CheckSuite, CiStatus, Commit, CommitNode,
    Commits, Contexts, Rollup, Workflow, WorkflowRun,
};
use gh_wrapper::number::{number, parse_u32, to_decimal};
use gh_wrapper::text;
use gh_wrapper::time::{age, relative_time, Span, Timestamp, FIRST_SECOND, LAST_SECOND};

// ---------------------------------------------------------------------------
// Texts and numbers
// ---------------------------------------------------------------------------

fn chars(s: &str) -> Vec<char> {
    s.chars().collect()
}

#[test]
fn white_space_is_that_of_std() {
    for c in '\0'..=char::MAX {
        assert_eq!(text::white_space(c), c.is_whitespace(), "{c:?}");
    }
}

#[test]
fn trimming_agrees_with_std() {
    for s in ["", " ", "a", " a ", "\t a b\u{a0}\n", "\u{3000}x\u{200b}", "\r\n"] {
        assert_eq!(text::trimmed(s), s.trim(), "{s:?}");
    }
}

#[test]
fn lines_agree_with_std() {
    for s in ["", "\n", "a", "a\n", "a\r\n", "a\r", "\r\n\n", "a\n\nb\r\r\nc", "\r", "a\nb\r"] {
        let expected: Vec<&str> = s.lines().collect();
        assert_eq!(text::cut_lines(s), expected, "{s:?}");
    }
}

#[test]
fn splitting_agrees_with_std() {
    for s in ["", "/", "a/b", "a//b/", "abc"] {
        let expected: Vec<&str> = s.split('/').collect();
        assert_eq!(text::split_at_each(&chars(s), '/'), expected, "{s:?}");
        assert_eq!(text::joined(&text::split_at_each(&chars(s), '/'), "/"), s);
    }
}

#[test]
fn replacing_agrees_with_std() {
    for (s, pattern, with) in [
        ("aXXbXX", "XX", "y"),
        ("XXX", "XX", "X"),
        ("abc", "X", "y"),
        ("", "X", "y"),
        ("a-b", "-", ""),
        ("aa", "a", "aa"),
    ] {
        assert_eq!(text::replaced(s, pattern, with), s.replace(pattern, with));
    }
}

#[test]
fn finding_agrees_with_std() {
    for (s, pattern) in [("abc", "bc"), ("abc", "bd"), ("abc", ""), ("", ""), ("", "a"), ("aab", "ab")] {
        assert_eq!(text::contains(s, pattern), s.contains(pattern));
        assert_eq!(text::starts_with(s, pattern), s.starts_with(pattern));
    }
}

#[test]
fn the_order_of_texts_is_that_of_std() {
    let all = ["", "a", "aa", "ab", "b", "é", "\u{ffff}", "😀", "2026-01-01", "2026-01-10"];
    for a in all {
        for b in all {
            assert_eq!(text::comes_before(a, b), a < b, "{a:?} {b:?}");
        }
    }
}

#[test]
fn numbers_are_read_back() {
    for n in [0, 7, 10, 4_294_967_295, 4_294_967_296, u64::MAX] {
        let s = to_decimal(n);
        assert_eq!(s, n.to_string());
        assert_eq!(parse_u32(&chars(&s)), s.parse::<u32>().ok());
        assert!(number(&chars(&s)));
    }
    assert!(!number(&[]));
    assert!(!number(&chars("1x")));
}

// ---------------------------------------------------------------------------
// Moments
// ---------------------------------------------------------------------------

fn at(s: &str) -> Timestamp {
    Timestamp::parse(s).unwrap()
}

fn outside(s: &str) -> DateTime<Utc> {
    s.parse().unwrap()
}

#[test]
fn moments_span_the_years_of_chrono() {
    assert_eq!(FIRST_SECOND, DateTime::<Utc>::MIN_UTC.timestamp());
    assert_eq!(LAST_SECOND, DateTime::<Utc>::MAX_UTC.timestamp());
    for secs in [FIRST_SECOND - 1, FIRST_SECOND, -1, 0, 59, 60, LAST_SECOND, LAST_SECOND + 1] {
        for nanos in [0, 999_999_999, 1_000_000_000, 1_999_999_999, 2_000_000_000] {
            assert_eq!(
                Timestamp::new(secs, nanos).is_some(),
                DateTime::from_timestamp(secs, nanos).is_some(),
                "{secs} {nanos}"
            );
        }
    }
}

#[test]
fn moments_are_read_from_rfc_3339() {
    assert_eq!(at("1970-01-01T00:00:00Z"), Timestamp::new(0, 0).unwrap());
    assert_eq!(at("2026-09-24T21:00:00Z"), Timestamp::new(1_790_283_600, 0).unwrap());
    assert_eq!(
        at("2000-02-29T12:34:56.789+01:30"),
        Timestamp::new(951_822_296, 789_000_000).unwrap()
    );
    assert_eq!(
        at("2016-12-31T23:59:60.5Z"),
        Timestamp::new(1_483_228_799, 1_500_000_000).unwrap()
    );
    for s in ["", "2026-09-24", "2026-09-24T21:00:00", "2026-02-29T00:00:00Z", "yesterday"] {
        assert_eq!(Timestamp::parse(s), None, "{s}");
    }
}

#[test]
fn spans_agree_with_chrono() {
    let moments = [
        "2016-12-31T23:59:59.25Z",
        "2016-12-31T23:59:60.5Z",
        "2017-01-01T00:00:00Z",
        "2017-01-01T00:00:00.75Z",
        "2017-06-30T12:00:60Z",
        "1969-12-31T23:59:59.999999999Z",
        "0000-01-01T00:00:00Z",
        "9999-12-31T23:59:59Z",
    ];
    for a in moments {
        for b in moments {
            let span = at(a).since(&at(b));
            let expected = outside(a) - outside(b);
            assert_eq!(TimeDelta::new(span.secs, span.nanos), Some(expected), "{a} {b}");
        }
    }
    let first = Timestamp::new(FIRST_SECOND, 0).unwrap();
    let last = Timestamp::new(LAST_SECOND, 999_999_999).unwrap();
    let expected = DateTime::<Utc>::MIN_UTC - DateTime::<Utc>::MAX_UTC;
    let span = first.since(&last);
    assert_eq!(TimeDelta::new(span.secs, span.nanos), Some(expected));
    assert_eq!(
        at("2026-01-01T00:00:00Z").since(&at("2026-01-01T00:00:00.25Z")),
        Span { secs: -1, nanos: 750_000_000 }
    );
}

#[test]
fn dates_agree_with_chrono() {
    for (s, days) in [
        ("2026-09-24T21:00:00Z", 21),
        ("2026-01-10T00:00:00Z", 21),
        ("2024-03-01T00:00:00Z", 1),
        ("2023-03-01T00:00:00Z", 1),
        ("2000-03-01T00:00:00Z", 1),
        ("2100-03-01T00:00:00Z", 1),
        ("2016-12-31T23:59:60.5Z", 21),
        ("0000-01-02T00:00:00Z", 3),
        ("1970-01-01T00:00:00Z", 1),
    ] {
        let expected = (outside(s) - TimeDelta::days(days)).format("%Y-%m-%d").to_string();
        assert_eq!(at(s).date_before(days * 86_400), expected, "{s} {days}");
    }
    assert_eq!(at("2026-09-24T21:00:00Z").date_before(86_400), "2026-09-23");
    assert_eq!(at("2016-12-31T23:59:60.5Z").date_before(21 * 86_400), "2016-12-11");
}

#[test]
fn dates_of_distant_years_agree_with_chrono() {
    for secs in [
        FIRST_SECOND + 1,
        -62_167_219_200,
        -62_167_219_201,
        -377_705_116_801,
        253_402_300_799,
        253_402_300_800,
        LAST_SECOND,
    ] {
        let outside = DateTime::from_timestamp(secs - 1, 0).unwrap();
        let expected = outside.format("%Y-%m-%d").to_string();
        assert_eq!(Timestamp::new(secs, 0).unwrap().date_before(1), expected, "{secs}");
    }
}

#[test]
fn the_future_is_worded_too() {
    let now = at("2026-09-24T21:00:00Z");
    assert_eq!(relative_time("2026-09-25T00:00:00Z", now), "in 3 hours");
    assert_eq!(relative_time("2026-09-24T20:59:00Z", now), "a minute ago");
    assert_eq!(age(Some(at("2026-09-24T20:00:00Z")), "x", now), "an hour ago");
    assert_eq!(age(None, "x", now), "x");
}

// ---------------------------------------------------------------------------
// Checks
// ---------------------------------------------------------------------------

fn check_run(status: &str, conclusion: Option<&str>, workflow: Option<&str>) -> CheckContext {
    CheckContext::CheckRun {
        name: "build".into(),
        status: status.into(),
        conclusion: conclusion.map(Into::into),
        details_url: None,
        check_suite: workflow.map(|name| CheckSuite {
            workflow_run: Some(WorkflowRun {
                database_id: 1,
                workflow: Workflow { name: name.into() },
            }),
        }),
    }
}

fn check(ci: CiStatus, name: &str) -> Check {
    Check { name: name.into(), ci, url: "".into() }
}

#[test]
fn rollup_states_say_where_ci_stands() {
    let of = CiStatus::from_rollup_state;
    assert_eq!(of(Some("SUCCESS")), CiStatus::Success);
    assert_eq!(of(Some("FAILURE")), CiStatus::Failure);
    assert_eq!(of(Some("ERROR")), CiStatus::Failure);
    assert_eq!(of(Some("PENDING")), CiStatus::Running);
    assert_eq!(of(Some("EXPECTED")), CiStatus::Running);
    assert_eq!(of(Some("success")), CiStatus::NoChecks);
    assert_eq!(of(None), CiStatus::NoChecks);
}

#[test]
fn icons_are_two_columns_wide() {
    assert_eq!(CiStatus::Success.icon(), "🟢");
    assert_eq!(CiStatus::Failure.icon(), "🔴");
    assert_eq!(CiStatus::Running.icon(), "🟡");
    assert_eq!(CiStatus::NoChecks.icon(), "  ");
}

#[test]
fn some_conclusions_count_as_passed() {
    for c in ["SUCCESS", "NEUTRAL", "SKIPPED", "STALE"] {
        assert!(is_passing(Some(c)), "{c}");
        assert_eq!(
            Check::from(check_run("COMPLETED", Some(c), None)),
            check(CiStatus::Success, "build")
        );
    }
    for c in ["FAILURE", "CANCELLED", "TIMED_OUT", ""] {
        assert!(!is_passing(Some(c)), "{c}");
    }
    assert!(!is_passing(None));
}

#[test]
fn rare_conclusions_are_explained() {
    let of = |status, conclusion, workflow| Check::from(check_run(status, conclusion, workflow));
    assert_eq!(of("COMPLETED", Some("FAILURE"), None), check(CiStatus::Failure, "build"));
    assert_eq!(of("COMPLETED", None, None), check(CiStatus::Failure, "build"));
    assert_eq!(
        of("COMPLETED", Some("STARTUP_FAILURE"), Some("CI")),
        check(CiStatus::Failure, "CI / build (startup failure)")
    );
    assert_eq!(
        of("COMPLETED", Some("ÄRGER_İ"), None),
        check(CiStatus::Failure, "build (ärger i\u{307})")
    );
    assert_eq!(of("COMPLETED", Some("CANCELLED"), None), check(CiStatus::NoChecks, "build"));
    assert_eq!(of("IN_PROGRESS", Some("FAILURE"), None), check(CiStatus::Running, "build"));
    assert_eq!(of("QUEUED", Some("TIMED_OUT"), Some("CI")), check(CiStatus::Running, "CI / build"));
    assert_eq!(with_reason("a", "b__c"), "a (b  c)");
}

#[test]
fn external_checks_are_taken_as_they_are() {
    assert_eq!(
        Check::from(CheckContext::StatusContext {
            context: "ext/ci".into(),
            state: "PENDING".into(),
            target_url: Some("u".into()),
        }),
        Check { name: "ext/ci".into(), ci: CiStatus::Running, url: "u".into() }
    );
}

fn head(contexts: Vec<CheckContext>) -> Commits {
    let commit = |nodes| CommitNode {
        commit: Commit {
            status_check_rollup: Some(Rollup {
                state: "PENDING".into(),
                contexts: Some(Contexts { nodes }),
            }),
        },
    };
    // Only the first commit counts.
    Commits {
        nodes: vec![commit(contexts), commit(vec![check_run("COMPLETED", None, Some("x"))])],
    }
}

#[test]
fn failures_come_first() {
    let commits = head(vec![
        check_run("QUEUED", None, Some("a")),
        check_run("COMPLETED", Some("FAILURE"), Some("b")),
        check_run("COMPLETED", Some("SUCCESS"), Some("c")),
        check_run("QUEUED", None, Some("d")),
        check_run("COMPLETED", Some("FAILURE"), Some("e")),
    ]);
    assert_eq!(commits.ci_status(), CiStatus::Running);
    assert_eq!(
        commits.failed_or_running_checks(),
        [
            check(CiStatus::Failure, "b / build"),
            check(CiStatus::Failure, "e / build"),
            check(CiStatus::Running, "a / build"),
            check(CiStatus::Running, "d / build"),
        ]
    );
}

#[test]
fn the_first_commit_holds_the_contexts() {
    let first = check_run("QUEUED", None, Some("a"));
    let again = check_run("QUEUED", None, Some("a"));
    assert_eq!(head(vec![first]).into_contexts(), [again]);
    assert_eq!(Commits { nodes: vec![] }.into_contexts(), []);
    assert_eq!(Commits { nodes: vec![] }.ci_status(), CiStatus::NoChecks);
    let bare = || Commits {
        nodes: vec![CommitNode {
            commit: Commit {
                status_check_rollup: Some(Rollup { state: "ERROR".into(), contexts: None }),
            },
        }],
    };
    assert_eq!(bare().ci_status(), CiStatus::Failure);
    assert_eq!(bare().into_contexts(), []);
}

#[test]
fn each_failed_run_is_named_once() {
    let job = |run: u64, conclusion: Option<&str>| CheckContext::CheckRun {
        name: "j".into(),
        status: "COMPLETED".into(),
        conclusion: conclusion.map(Into::into),
        details_url: None,
        check_suite: Some(CheckSuite {
            workflow_run: Some(WorkflowRun {
                database_id: run,
                workflow: Workflow { name: "w".into() },
            }),
        }),
    };
    let commits = head(vec![
        job(9, Some("FAILURE")),
        job(3, Some("CANCELLED")),
        job(9, None),
        job(1, Some("NEUTRAL")),
        check_run("COMPLETED", Some("FAILURE"), None),
        job(5, None),
        job(3, Some("FAILURE")),
    ]);
    assert_eq!(commits.failed_run_ids(), [9, 3, 5]);
}
