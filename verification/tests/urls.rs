//! URLs of pull requests, runs and jobs.

use gh_wrapper::url::{parse_pr_url, parse_rerun_url, RerunTarget};

#[test]
fn parse_rerun_url_accepts_jobs_and_runs() {
    let target = |run_id: &str, job_id: Option<&str>| RerunTarget {
        repo: "github.com/o/r".into(),
        run_id: run_id.into(),
        job_id: job_id.map(Into::into),
    };
    let parse = |url| parse_rerun_url(url).unwrap();
    assert_eq!(
        parse("https://github.com/o/r/actions/runs/1/job/2"),
        target("1", Some("2"))
    );
    assert_eq!(
        parse("https://github.com/o/r/actions/runs/1/job/2?pr=3#step:4:5"),
        target("1", Some("2"))
    );
    assert_eq!(
        parse("https://github.com/o/r/actions/runs/1/"),
        target("1", None)
    );
    assert_eq!(
        parse("https://github.com/o/r/actions/runs/1/attempts/2"),
        target("1", None)
    );
}

#[test]
fn parse_pr_url_accepts_prs_only() {
    let expected = Some((
        "github.com/o/r".to_string(),
        "https://github.com/o/r/pull/1".to_string(),
    ));
    assert_eq!(parse_pr_url("https://github.com/o/r/pull/1"), expected);
    assert_eq!(
        parse_pr_url("https://github.com/o/r/pull/1/checks"),
        expected
    );
    assert_eq!(parse_pr_url("https://github.com/o/r/pull/1/#top"), expected);
    for url in [
        "https://github.com/o/r/pull/x",
        "https://github.com/o/r/pull/",
        "https://github.com/o/r/issues/1",
        "https://github.com/o/r/actions/runs/1",
        "http://github.com/o/r/pull/1",
    ] {
        assert_eq!(parse_pr_url(url), None, "{url}");
    }
}

#[test]
fn parse_rerun_url_rejects_other_urls() {
    for url in [
        "https://github.com/o/r/pull/1",
        "https://github.com/o/r/actions/runs/x",
        "https://github.com/o/r/actions/runs/1/job/",
        "https://github.com/o/r/actions/runs/1/job/2/extra",
        "http://github.com/o/r/actions/runs/1",
        "https://ci.example.com/build/1",
    ] {
        assert!(parse_rerun_url(url).is_err(), "{url}");
    }
}

#[test]
fn refused_urls_are_named_as_they_were_given() {
    assert_eq!(
        parse_rerun_url("https://github.com/o/r?x#y"),
        Err(
            "not a pull request or GitHub Actions run or job URL: https://github.com/o/r?x#y"
                .to_string()
        )
    );
}

#[test]
fn ids_are_ascii_digits() {
    for url in [
        "https://github.com/o/r/actions/runs/+1",
        "https://github.com/o/r/actions/runs/1/job/-2",
        "https://github.com/o/r/actions/runs/1/job/٢",
        "https://github.com/o/r/actions/runs//job/2",
    ] {
        assert!(parse_rerun_url(url).is_err(), "{url}");
    }
    // Ids are kept as they are, however long.
    let id = "00123456789012345678901234567890";
    let target = parse_rerun_url(&format!("https://h/o/r/actions/runs/{id}")).unwrap();
    assert_eq!(target.run_id, id);
}

#[test]
fn an_attempt_can_be_named_in_any_way() {
    let target = parse_rerun_url("https://h/o/r/actions/runs/1/attempts/x").unwrap();
    assert_eq!((target.run_id.as_str(), target.job_id), ("1", None));
    assert!(parse_rerun_url("https://h/o/r/actions/runs/1/attempts").is_err());
    assert!(parse_rerun_url("https://h/o/r/actions/runs/1/attempts/2/x").is_err());
}

#[test]
fn slashes_at_the_end_are_ignored() {
    let target = parse_rerun_url("https://h/o/r/actions/runs/1/job/2///").unwrap();
    assert_eq!(target.job_id, Some("2".to_string()));
    assert_eq!(
        parse_pr_url("https://h/o/r/pull/7//"),
        Some(("h/o/r".to_string(), "https://h/o/r/pull/7".to_string()))
    );
}

#[test]
fn canonical_pr_urls_stay_as_they_are() {
    let (repo, url) = parse_pr_url("https://h/o/r/pull/7/files?w=1#diff").unwrap();
    assert_eq!(parse_pr_url(&url), Some((repo, url)));
}

#[test]
fn parts_of_a_repo_may_be_empty() {
    assert_eq!(
        parse_pr_url("https:////r/pull/7"),
        Some(("//r".to_string(), "https:////r/pull/7".to_string()))
    );
}
