//! URLs of pull requests and of GitHub Actions runs and jobs.

use vstd::prelude::*;
use vstd::string::*;

use crate::number;
use crate::text;

verus! {

/// Picks the characters that end a URL's path.
pub open spec fn path_end() -> spec_fn(char) -> bool {
    |c: char| c == '?' || c == '#'
}

/// `url` without its query and its fragment.
pub open spec fn without_query(url: Seq<char>) -> Seq<char> {
    url.take(text::scan(url, path_end()) as int)
}

/// The host and the segments of the path of an `https` URL. Slashes at the end do not count.
pub open spec fn segments(url: Seq<char>) -> Option<Seq<Seq<char>>> {
    match text::strip_prefix(without_query(url), "https://"@) {
        Some(path) => Some(text::split(text::trim_end_char(path, '/'), '/')),
        None => None,
    }
}

/// A repository in `gh -R` form: `host/owner/repo`.
pub open spec fn repo_path(s: Seq<Seq<char>>) -> Seq<char> {
    s[0] + "/"@ + s[1] + "/"@ + s[2]
}

/// A run, or one of its jobs, to be run again.
#[derive(Debug, PartialEq)]
pub struct RerunTarget {
    /// In `gh -R` form: `host/owner/repo`.
    pub repo: String,
    pub run_id: String,
    pub job_id: Option<String>,
}

/// The model of a `RerunTarget`.
pub struct RerunTargetModel {
    pub repo: Seq<char>,
    pub run_id: Seq<char>,
    pub job_id: Option<Seq<char>>,
}

impl DeepView for RerunTarget {
    type V = RerunTargetModel;

    open spec fn deep_view(&self) -> RerunTargetModel {
        RerunTargetModel {
            repo: self.repo@,
            run_id: self.run_id@,
            job_id: self.job_id.deep_view(),
        }
    }
}

/// What follows the run's number in a URL: the job, if there is one. There may also be nothing or
/// an attempt; with anything else it is no such URL.
pub open spec fn job_in(s: Seq<Seq<char>>) -> Option<Option<Seq<char>>> {
    if s.len() == 6 || s.len() == 8 && s[6] == "attempts"@ {
        Some(None)
    } else if s.len() == 8 && s[6] == "job"@ && number::is_number(s[7]) {
        Some(Some(s[7]))
    } else {
        None
    }
}

/// The run or job that a URL stands for.
pub open spec fn rerun_target(url: Seq<char>) -> Option<RerunTargetModel> {
    match segments(url) {
        Some(s) => if s.len() >= 6 && s[3] == "actions"@ && s[4] == "runs"@ && number::is_number(
            s[5],
        ) {
            match job_in(s) {
                Some(job_id) => Some(
                    RerunTargetModel { repo: repo_path(s), run_id: s[5], job_id },
                ),
                None => None,
            }
        } else {
            None
        },
        None => None,
    }
}

/// The URL of a pull request.
pub open spec fn pr_link(repo: Seq<char>, id: Seq<char>) -> Seq<char> {
    "https://"@ + repo + "/pull/"@ + id
}

/// The repository and the plain URL of the pull request that a URL stands for.
pub open spec fn pr_address(url: Seq<char>) -> Option<(Seq<char>, Seq<char>)> {
    match segments(url) {
        Some(s) => if s.len() >= 5 && s[3] == "pull"@ && number::is_number(s[4]) {
            Some((repo_path(s), pr_link(repo_path(s), s[4])))
        } else {
            None
        },
        None => None,
    }
}

/// The host and the segments of the path of an `https` URL.
fn url_segments(url: &str) -> (s: Option<Vec<String>>)
    ensures
        s.deep_view() == segments(url@),
{
    let chars = text::to_chars(url);
    let mut n: usize = 0;
    while n < chars.len() && chars[n] != '?' && chars[n] != '#'
        invariant
            chars@ == url@,
            n <= chars@.len(),
            forall|i: int| 0 <= i < n ==> !path_end()(#[trigger] chars@[i]),
        decreases chars@.len() - n,
    {
        n = n + 1;
    }
    proof {
        text::lemma_scan(url@, path_end(), n as int);
    }
    let plain = vstd::slice::slice_subrange(chars.as_slice(), 0, n);
    assert(plain@ =~= without_query(url@));
    match text::after_prefix(plain, "https://") {
        Some(path) => {
            let len = text::trimmed_char_len(path, '/');
            let trimmed = vstd::slice::slice_subrange(path, 0, len);
            assert(trimmed@ =~= path@.take(len as int));
            Some(text::split_at_each(trimmed, '/'))
        },
        None => None,
    }
}

/// Whether `s` is one or more ASCII digits and nothing else.
fn is_id(s: &str) -> (yes: bool)
    ensures
        yes == number::is_number(s@),
{
    number::number(text::to_chars(s).as_slice())
}

/// The repository of a URL in `gh -R` form.
fn repo_of(s: &Vec<String>) -> (repo: String)
    requires
        s@.len() >= 3,
    ensures
        repo@ == repo_path(s.deep_view()),
{
    let mut repo = s[0].clone();
    repo.append("/");
    repo.append(s[1].as_str());
    repo.append("/");
    repo.append(s[2].as_str());
    repo
}

/// The error for a URL that is not one of a pull request, a run or a job.
pub open spec fn not_rerunnable(url: Seq<char>) -> Seq<char> {
    "not a pull request or GitHub Actions run or job URL: "@ + url
}

/// Accepts `https://<host>/<owner>/<repo>/actions/runs/<run>` (optionally `/attempts/<n>`) or
/// `…/runs/<run>/job/<job>`, as printed by `--actions`.
pub fn parse_rerun_url(url: &str) -> (target: Result<RerunTarget, String>)
    ensures
        text::outcome(target) == match rerun_target(url@) {
            Some(model) => Ok(model),
            None => Err(not_rerunnable(url@)),
        },
{
    if let Some(s) = url_segments(url) {
        let n = s.len();
        assert(s.deep_view().len() == n);
        if n >= 6 && text::same(s[3].as_str(), "actions") && text::same(s[4].as_str(), "runs")
            && is_id(s[5].as_str()) {
            if n == 6 || (n == 8 && text::same(s[6].as_str(), "attempts")) {
                return Ok(
                    RerunTarget { repo: repo_of(&s), run_id: s[5].clone(), job_id: None },
                );
            }
            if n == 8 && text::same(s[6].as_str(), "job") && is_id(s[7].as_str()) {
                return Ok(
                    RerunTarget {
                        repo: repo_of(&s),
                        run_id: s[5].clone(),
                        job_id: Some(s[7].clone()),
                    },
                );
            }
        }
    }
    Err(text::join2("not a pull request or GitHub Actions run or job URL: ", url))
}

/// Accepts `https://<host>/<owner>/<repo>/pull/<n>`, optionally followed by a tab such as
/// `/checks`. Returns the repo in `gh -R` form and the PR URL without the tab.
pub fn parse_pr_url(url: &str) -> (address: Option<(String, String)>)
    ensures
        address.deep_view() == pr_address(url@),
{
    if let Some(s) = url_segments(url) {
        assert(s.deep_view().len() == s@.len());
        if s.len() >= 5 && text::same(s[3].as_str(), "pull") && is_id(s[4].as_str()) {
            let repo = repo_of(&s);
            let mut link = text::join3("https://", repo.as_str(), "/pull/");
            link.append(s[4].as_str());
            return Some((repo, link));
        }
    }
    None
}

// ---------------------------------------------------------------------------
// Laws
// ---------------------------------------------------------------------------

/// Whether `s` can be a segment of a path: it has no slash and nothing that ends a path.
pub open spec fn is_segment(s: Seq<char>) -> bool {
    text::without(s, '/') && text::without(s, '?') && text::without(s, '#')
}

/// A number can be a segment.
proof fn lemma_number_segment(s: Seq<char>)
    requires
        number::is_number(s),
    ensures
        is_segment(s),
{
    assert forall|i: int| 0 <= i < s.len() implies s[i] != '/' && s[i] != '?' && s[i] != '#' by {
        assert(number::is_digit(s[i]));
    }
}

/// A text without `?` and `#` has no query to lose.
proof fn lemma_no_query(s: Seq<char>)
    requires
        text::without(s, '?'),
        text::without(s, '#'),
    ensures
        without_query(s) == s,
{
    text::lemma_scan(s, path_end(), s.len() as int);
    assert(s.take(s.len() as int) =~= s);
}

/// Segments joined by slashes are the segments of the URL, if the last one is not empty.
proof fn lemma_segments(s: Seq<Seq<char>>)
    requires
        s.len() > 0,
        s.last().len() > 0,
        forall|i: int| 0 <= i < s.len() ==> is_segment(#[trigger] s[i]),
    ensures
        segments("https://"@ + text::join(s, seq!['/'])) == Some(s),
{
    let path = text::join(s, seq!['/']);
    let url = "https://"@ + path;
    lemma_joined(s);
    reveal_strlit("https://");
    assert(text::without("https://"@, '?') && text::without("https://"@, '#'));
    assert(text::without(url, '?') && text::without(url, '#')) by {
        assert forall|i: int| 0 <= i < url.len() implies url[i] != '?' && url[i] != '#' by {
            if i >= "https://"@.len() {
                assert(url[i] == path[i - "https://"@.len()]);
            }
        }
    }
    lemma_no_query(url);
    assert(url.take("https://"@.len() as int) =~= "https://"@);
    assert(url.skip("https://"@.len() as int) =~= path);
}

/// What is true of segments joined by slashes.
proof fn lemma_joined(s: Seq<Seq<char>>)
    requires
        s.len() > 0,
        s.last().len() > 0,
        forall|i: int| 0 <= i < s.len() ==> is_segment(#[trigger] s[i]),
    ensures
        text::split(text::join(s, seq!['/']), '/') == s,
        text::without(text::join(s, seq!['/']), '?'),
        text::without(text::join(s, seq!['/']), '#'),
        text::join(s, seq!['/']).len() > 0,
        text::join(s, seq!['/']).last() != '/',
    decreases s.len(),
{
    let path = text::join(s, seq!['/']);
    assert(is_segment(s[0]) && is_segment(s[s.len() - 1]));
    if s.len() == 1 {
        text::lemma_split_none(s[0], '/');
        assert(seq![s[0]] =~= s);
    } else {
        let rest = s.drop_first();
        assert forall|i: int| 0 <= i < rest.len() implies is_segment(#[trigger] rest[i]) by {
            assert(rest[i] == s[i + 1]);
        }
        lemma_joined(rest);
        text::lemma_join_first(s, seq!['/']);
        text::lemma_split_first(s[0], text::join(rest, seq!['/']), '/');
        assert(seq![s[0]] + rest =~= s);
        let tail = text::join(rest, seq!['/']);
        assert forall|i: int| 0 <= i < path.len() implies path[i] != '?' && path[i] != '#' by {
            if i > s[0].len() {
                assert(path[i] == tail[i - s[0].len() - 1]);
            }
        }
        assert(path.last() == tail.last());
    }
}

/// The segments of a URL are segments.
proof fn lemma_segments_are_segments(url: Seq<char>)
    requires
        segments(url) is Some,
    ensures
        forall|i: int| 0 <= i < segments(url)->0.len() ==> is_segment(#[trigger] segments(url)->0[i]),
{
    let plain = without_query(url);
    let path = plain.skip("https://"@.len() as int);
    let trimmed = text::trim_end_char(path, '/');
    text::lemma_scan_bounds(url, path_end());
    lemma_trimmed_prefix(path, '/');
    assert forall|i: int| 0 <= i < trimmed.len() implies trimmed[i] != '?' && trimmed[i] != '#' by {
        assert(trimmed[i] == path.take(trimmed.len() as int)[i]);
        assert(!path_end()(url[i + "https://"@.len()]));
    }
    text::lemma_split_pieces(trimmed, '/');
}

/// Cutting characters off the end leaves a beginning, which does not end in one of them.
proof fn lemma_trimmed_prefix(s: Seq<char>, c: char)
    ensures
        text::trim_end_char(s, c).len() <= s.len(),
        text::trim_end_char(s, c) == s.take(text::trim_end_char(s, c).len() as int),
        text::trim_end_char(s, c).len() > 0 ==> text::trim_end_char(s, c).last() != c,
    decreases s.len(),
{
    if s.len() > 0 && s.last() == c {
        lemma_trimmed_prefix(s.drop_last(), c);
        let t = text::trim_end_char(s, c);
        assert(s.drop_last().take(t.len() as int) =~= s.take(t.len() as int));
    } else {
        assert(s.take(s.len() as int) =~= s);
    }
}

/// Cutting characters off the end stops at the first other character.
proof fn lemma_trimmed_behind(p: Seq<char>, s: Seq<char>, c: char)
    requires
        p.len() > 0,
        p.last() != c,
    ensures
        text::trim_end_char(p + s, c) == p + text::trim_end_char(s, c),
    decreases s.len(),
{
    if s.len() == 0 {
        assert(p + s =~= p);
    } else {
        assert((p + s).last() == s.last());
        if s.last() == c {
            assert((p + s).drop_last() =~= p + s.drop_last());
            lemma_trimmed_behind(p, s.drop_last(), c);
        }
    }
}

/// What stands behind a path after a slash leaves its segments as they are.
proof fn lemma_split_more(s: Seq<Seq<char>>, more: Seq<char>)
    requires
        s.len() > 0,
        forall|i: int| 0 <= i < s.len() ==> is_segment(#[trigger] s[i]),
        more.len() > 0 ==> more[0] == '/',
    ensures
        text::split(text::join(s, seq!['/']) + more, '/').len() >= s.len(),
        text::split(text::join(s, seq!['/']) + more, '/').take(s.len() as int) == s,
    decreases s.len(),
{
    let slash = seq!['/'];
    let whole = text::join(s, slash) + more;
    assert(is_segment(s[0]));
    if s.len() == 1 {
        if more.len() == 0 {
            assert(whole =~= s[0]);
            text::lemma_split_none(s[0], '/');
        } else {
            assert(whole =~= s[0] + slash + more.skip(1));
            text::lemma_split_first(s[0], more.skip(1), '/');
        }
        assert(text::split(whole, '/').take(1) =~= s);
    } else {
        let rest = s.drop_first();
        let tail = text::join(rest, slash) + more;
        assert forall|i: int| 0 <= i < rest.len() implies is_segment(#[trigger] rest[i]) by {
            assert(rest[i] == s[i + 1]);
        }
        lemma_split_more(rest, more);
        text::lemma_join_first(s, slash);
        assert(whole =~= s[0] + slash + tail);
        text::lemma_split_first(s[0], tail, '/');
        let pieces = text::split(tail, '/');
        assert forall|i: int| 0 <= i < s.len() implies #[trigger] (seq![s[0]] + pieces)[i]
            == s[i] by {
            if i > 0 {
                assert(pieces.take(rest.len() as int)[i - 1] == rest[i - 1]);
            }
        }
        assert((seq![s[0]] + pieces).take(s.len() as int) =~= s);
    }
}

/// Whatever stands behind a URL after a slash leaves its segments as they are.
proof fn lemma_more_segments(s: Seq<Seq<char>>, more: Seq<char>)
    requires
        s.len() > 0,
        s.last().len() > 0,
        forall|i: int| 0 <= i < s.len() ==> is_segment(#[trigger] s[i]),
    ensures
        segments("https://"@ + text::join(s, seq!['/']) + seq!['/'] + more) matches Some(t)
            && t.len() >= s.len() && t.take(s.len() as int) == s,
{
    let slash = seq!['/'];
    let base = text::join(s, slash);
    let start = "https://"@ + base + slash;
    let url = start + more;
    lemma_joined(s);
    reveal_strlit("https://");
    assert forall|i: int| 0 <= i < start.len() implies !path_end()(#[trigger] start[i]) by {
        if i >= 8 && i < 8 + base.len() {
            assert(start[i] == base[i - 8]);
        }
    }
    let n = text::scan(more, path_end()) as int;
    text::lemma_scan_bounds(more, path_end());
    let k = start.len() + n;
    assert forall|i: int| 0 <= i < k implies !path_end()(#[trigger] url[i]) by {
        if i < start.len() {
            assert(url[i] == start[i]);
        } else {
            assert(url[i] == more[i - start.len()]);
        }
    }
    if n < more.len() {
        assert(url[k] == more[n]);
    }
    text::lemma_scan(url, path_end(), k);
    let tail = slash + more.take(n);
    assert(without_query(url) =~= "https://"@ + (base + tail));
    let plain = without_query(url);
    assert(plain.take(8) =~= "https://"@);
    assert(plain.skip(8) =~= base + tail);
    lemma_trimmed_behind(base, tail, '/');
    lemma_trimmed_prefix(tail, '/');
    lemma_split_more(s, text::trim_end_char(tail, '/'));
}

/// The URL of a pull request as a list of segments.
proof fn lemma_pr_link(host: Seq<char>, owner: Seq<char>, repo: Seq<char>, id: Seq<char>)
    ensures
        pr_link(host + "/"@ + owner + "/"@ + repo, id) == "https://"@ + text::join(
            seq![host, owner, repo, "pull"@, id],
            seq!['/'],
        ),
{
    reveal_strlit("/");
    reveal_strlit("/pull/");
    reveal_strlit("pull");
    let s = seq![host, owner, repo, "pull"@, id];
    assert(s.drop_last() =~= seq![host, owner, repo, "pull"@]);
    assert(s.drop_last().drop_last() =~= seq![host, owner, repo]);
    assert(s.drop_last().drop_last().drop_last() =~= seq![host, owner]);
    assert(s.drop_last().drop_last().drop_last().drop_last() =~= seq![host]);
    reveal_with_fuel(text::join, 6);
    assert(pr_link(host + "/"@ + owner + "/"@ + repo, id) =~= "https://"@ + text::join(
        s,
        seq!['/'],
    ));
}

/// Every URL of the form `https://<host>/<owner>/<repo>/pull/<n>` is accepted, and is given back
/// unchanged with its repository.
pub proof fn law_pr_urls_are_accepted(
    host: Seq<char>,
    owner: Seq<char>,
    repo: Seq<char>,
    id: Seq<char>,
)
    requires
        is_segment(host),
        is_segment(owner),
        is_segment(repo),
        number::is_number(id),
    ensures
        pr_address(pr_link(host + "/"@ + owner + "/"@ + repo, id)) == Some(
            (
                host + "/"@ + owner + "/"@ + repo,
                pr_link(host + "/"@ + owner + "/"@ + repo, id),
            ),
        ),
{
    let s = seq![host, owner, repo, "pull"@, id];
    lemma_number_segment(id);
    reveal_strlit("pull");
    assert(is_segment("pull"@));
    lemma_pr_link(host, owner, repo, id);
    lemma_segments(s);
}

/// The URL that is given back for a pull request stands for the same pull request: to look at it
/// again changes nothing.
pub proof fn law_pr_urls_are_canonical(url: Seq<char>)
    requires
        pr_address(url) is Some,
    ensures
        ({
            let (repo, link) = pr_address(url)->0;
            pr_address(link) == Some((repo, link))
        }),
{
    let s = segments(url)->0;
    lemma_segments_are_segments(url);
    assert(is_segment(s[0]) && is_segment(s[1]) && is_segment(s[2]));
    law_pr_urls_are_accepted(s[0], s[1], s[2], s[4]);
}

/// Whatever stands behind the URL of a pull request after a slash, such as the tab `/checks`,
/// changes nothing of what it stands for.
pub proof fn law_pr_tab_is_ignored(
    host: Seq<char>,
    owner: Seq<char>,
    repo: Seq<char>,
    id: Seq<char>,
    tab: Seq<char>,
)
    requires
        is_segment(host),
        is_segment(owner),
        is_segment(repo),
        number::is_number(id),
    ensures
        pr_address(pr_link(host + "/"@ + owner + "/"@ + repo, id) + "/"@ + tab) == pr_address(
            pr_link(host + "/"@ + owner + "/"@ + repo, id),
        ),
{
    let s = seq![host, owner, repo, "pull"@, id];
    law_pr_urls_are_accepted(host, owner, repo, id);
    lemma_number_segment(id);
    reveal_strlit("pull");
    reveal_strlit("/");
    assert(is_segment("pull"@));
    lemma_pr_link(host, owner, repo, id);
    assert("/"@ =~= seq!['/']);
    lemma_more_segments(s, tab);
    let t = segments(pr_link(host + "/"@ + owner + "/"@ + repo, id) + "/"@ + tab)->0;
    assert forall|k: int| 0 <= k < 5 implies t[k] == s[k] by {
        assert(t.take(5)[k] == t[k]);
    }
}

/// No URL is both one of a pull request and one of a run or job.
pub proof fn law_urls_are_unambiguous(url: Seq<char>)
    ensures
        !(pr_address(url) is Some && rerun_target(url) is Some),
{
    reveal_strlit("pull");
    reveal_strlit("actions");
    assert("pull"@.len() != "actions"@.len());
}

/// The URL of a run.
pub open spec fn run_link(
    host: Seq<char>,
    owner: Seq<char>,
    repo: Seq<char>,
    run: Seq<char>,
) -> Seq<char> {
    "https://"@ + host + "/"@ + owner + "/"@ + repo + "/actions/runs/"@ + run
}

/// The URL of a run, and of something below it, as lists of segments.
proof fn lemma_run_link(
    host: Seq<char>,
    owner: Seq<char>,
    repo: Seq<char>,
    run: Seq<char>,
    kind: Seq<char>,
    id: Seq<char>,
)
    ensures
        run_link(host, owner, repo, run) == "https://"@ + text::join(
            seq![host, owner, repo, "actions"@, "runs"@, run],
            seq!['/'],
        ),
        run_link(host, owner, repo, run) + seq!['/'] + kind + seq!['/'] + id == "https://"@
            + text::join(
            seq![host, owner, repo, "actions"@, "runs"@, run, kind, id],
            seq!['/'],
        ),
{
    reveal_strlit("/");
    reveal_strlit("/actions/runs/");
    reveal_strlit("actions");
    reveal_strlit("runs");
    let slash = seq!['/'];
    let s1 = seq![host];
    let s2 = seq![host, owner];
    let s3 = seq![host, owner, repo];
    let s4 = seq![host, owner, repo, "actions"@];
    let s5 = seq![host, owner, repo, "actions"@, "runs"@];
    let s6 = seq![host, owner, repo, "actions"@, "runs"@, run];
    let s7 = seq![host, owner, repo, "actions"@, "runs"@, run, kind];
    let s8 = seq![host, owner, repo, "actions"@, "runs"@, run, kind, id];
    assert(s2.drop_last() =~= s1);
    assert(s3.drop_last() =~= s2);
    assert(s4.drop_last() =~= s3);
    assert(s5.drop_last() =~= s4);
    assert(s6.drop_last() =~= s5);
    assert(s7.drop_last() =~= s6);
    assert(s8.drop_last() =~= s7);
    assert(text::join(s1, slash) == host);
    assert(text::join(s2, slash) == host + slash + owner);
    assert(text::join(s3, slash) == text::join(s2, slash) + slash + repo);
    assert(text::join(s4, slash) == text::join(s3, slash) + slash + "actions"@);
    assert(text::join(s5, slash) == text::join(s4, slash) + slash + "runs"@);
    assert(text::join(s6, slash) == text::join(s5, slash) + slash + run);
    assert("/"@ =~= slash);
    assert("/actions/runs/"@ =~= slash + "actions"@ + slash + "runs"@ + slash);
    assert(run_link(host, owner, repo, run) =~= "https://"@ + text::join(s6, slash));
    assert(text::join(s7, slash) == text::join(s6, slash) + slash + kind);
    assert(text::join(s8, slash) == text::join(s7, slash) + slash + id);
    assert(run_link(host, owner, repo, run) + slash + kind + slash + id =~= "https://"@
        + text::join(s8, slash));
}

/// Every URL of a run, `https://<host>/<owner>/<repo>/actions/runs/<run>`, is accepted, also with
/// `/attempts/<n>` or `/job/<job>` behind it; only the last one names a job.
pub proof fn law_run_urls_are_accepted(
    host: Seq<char>,
    owner: Seq<char>,
    repo: Seq<char>,
    run: Seq<char>,
    attempt: Seq<char>,
    job: Seq<char>,
)
    requires
        is_segment(host),
        is_segment(owner),
        is_segment(repo),
        number::is_number(run),
        is_segment(attempt),
        attempt.len() > 0,
        number::is_number(job),
    ensures
        ({
            let link = run_link(host, owner, repo, run);
            let whole = RerunTargetModel {
                repo: host + "/"@ + owner + "/"@ + repo,
                run_id: run,
                job_id: None,
            };
            &&& rerun_target(link) == Some(whole)
            &&& rerun_target(link + "/attempts/"@ + attempt) == Some(whole)
            &&& rerun_target(link + "/job/"@ + job) == Some(
                RerunTargetModel { job_id: Some(job), ..whole },
            )
        }),
{
    lemma_number_segment(run);
    lemma_number_segment(job);
    reveal_strlit("actions");
    reveal_strlit("runs");
    reveal_strlit("attempts");
    reveal_strlit("job");
    reveal_strlit("/attempts/");
    reveal_strlit("/job/");
    let link = run_link(host, owner, repo, run);
    let s = seq![host, owner, repo, "actions"@, "runs"@, run];
    let a = seq![host, owner, repo, "actions"@, "runs"@, run, "attempts"@, attempt];
    let j = seq![host, owner, repo, "actions"@, "runs"@, run, "job"@, job];
    assert(is_segment("actions"@) && is_segment("runs"@) && is_segment("attempts"@) && is_segment(
        "job"@,
    ));
    lemma_run_link(host, owner, repo, run, "attempts"@, attempt);
    lemma_run_link(host, owner, repo, run, "job"@, job);
    lemma_segments(s);
    lemma_segments(a);
    lemma_segments(j);
    assert(link + "/attempts/"@ + attempt =~= link + seq!['/'] + "attempts"@ + seq!['/']
        + attempt);
    assert(link + "/job/"@ + job =~= link + seq!['/'] + "job"@ + seq!['/'] + job);
    assert("job"@.len() != "attempts"@.len());
}

/// A query or a fragment changes nothing of what a URL stands for.
pub proof fn law_query_is_ignored(url: Seq<char>, query: Seq<char>)
    requires
        query.len() > 0,
        query[0] == '?' || query[0] == '#',
    ensures
        pr_address(url + query) == pr_address(url),
        rerun_target(url + query) == rerun_target(url),
{
    let n = text::scan(url, path_end()) as int;
    let whole = url + query;
    text::lemma_scan_bounds(url, path_end());
    assert forall|i: int| 0 <= i < n implies !path_end()(#[trigger] whole[i]) by {
        assert(whole[i] == url[i]);
    }
    if n == url.len() {
        assert(whole[n] == query[0]);
    } else {
        assert(whole[n] == url[n]);
    }
    text::lemma_scan(whole, path_end(), n);
    assert(whole.take(n) =~= url.take(n));
}

/// A slash at the end changes nothing of what a URL stands for.
pub proof fn law_trailing_slash_is_ignored(url: Seq<char>)
    ensures
        pr_address(url.push('/')) == pr_address(url),
        rerun_target(url.push('/')) == rerun_target(url),
{
    let longer = url.push('/');
    let n = "https://"@.len() as int;
    let end = text::scan(url, path_end()) as int;
    text::lemma_scan_bounds(url, path_end());
    assert forall|i: int| 0 <= i < end implies !path_end()(#[trigger] longer[i]) by {
        assert(longer[i] == url[i]);
    }
    if end < url.len() {
        assert(longer[end] == url[end]);
        text::lemma_scan(longer, path_end(), end);
        assert(longer.take(end) =~= url.take(end));
    } else {
        text::lemma_scan(longer, path_end(), longer.len() as int);
        assert(url.take(end) =~= url);
        assert(longer.take(longer.len() as int) =~= longer);
        if "https://"@.is_prefix_of(url) {
            assert(longer.take(n) =~= url.take(n));
            assert(longer.skip(n) =~= url.skip(n).push('/'));
            assert(longer.skip(n).drop_last() =~= url.skip(n));
        } else if "https://"@.is_prefix_of(longer) {
            assert(longer.len() == n) by {
                if longer.len() > n {
                    assert(url.take(n) =~= longer.take(n));
                }
            }
            let path = longer.skip(n);
            assert(path =~= seq![]);
            text::lemma_split_none(path, '/');
            assert(segments(longer) == Some(seq![path]));
        }
    }
}

/// What is read of a URL of a pull request is the beginning of the URL: its link begins the URL,
/// and names its repository and its number.
pub proof fn law_pr_links_begin_their_url(url: Seq<char>)
    requires
        pr_address(url) is Some,
    ensures
        ({
            let (repo, link) = pr_address(url)->0;
            &&& link.is_prefix_of(url)
            &&& exists|id: Seq<char>| #[trigger] number::is_number(id) && link == "https://"@ + repo
                + "/pull/"@ + id
        }),
{
    let s = segments(url)->0;
    lemma_segments_are_segments(url);
    lemma_pr_link(s[0], s[1], s[2], s[4]);
    let five = seq![s[0], s[1], s[2], "pull"@, s[4]];
    assert(s.take(5) =~= five);
    lemma_first_segments(url, 5);
    let (repo, link) = pr_address(url)->0;
    assert(number::is_number(s[4]) && link == "https://"@ + repo + "/pull/"@ + s[4]);
}

/// What is read of a URL of a run is in the URL: it begins with the run's link, behind which a job
/// stands exactly if one is read.
pub proof fn law_run_links_begin_their_url(url: Seq<char>)
    requires
        rerun_target(url) is Some,
    ensures
        ({
            let t = rerun_target(url)->0;
            let link = "https://"@ + t.repo + "/actions/runs/"@ + t.run_id;
            &&& number::is_number(t.run_id)
            &&& link.is_prefix_of(url)
            &&& t.job_id matches Some(job) ==> number::is_number(job) && (link + "/job/"@
                + job).is_prefix_of(url)
        }),
{
    reveal_strlit("actions");
    reveal_strlit("runs");
    reveal_strlit("job");
    reveal_strlit("/job/");
    reveal_strlit("/actions/runs/");
    let s = segments(url)->0;
    let t = rerun_target(url)->0;
    lemma_segments_are_segments(url);
    lemma_run_link(s[0], s[1], s[2], s[5], s[6], s[7]);
    let six = seq![s[0], s[1], s[2], "actions"@, "runs"@, s[5]];
    assert(s.take(6) =~= six);
    lemma_first_segments(url, 6);
    let link = "https://"@ + t.repo + "/actions/runs/"@ + t.run_id;
    assert(link =~= run_link(s[0], s[1], s[2], s[5])) by {
        reveal_strlit("/");
    }
    if t.job_id is Some {
        let eight = seq![s[0], s[1], s[2], "actions"@, "runs"@, s[5], s[6], s[7]];
        assert(s.take(8) =~= eight);
        lemma_first_segments(url, 8);
        assert(link + "/job/"@ + s[7] =~= link + seq!['/'] + "job"@ + seq!['/'] + s[7]);
    }
}

/// A URL of a run has the run's six segments, and behind them nothing, an attempt, or a job; every
/// other URL is refused.
pub proof fn law_only_runs_attempts_and_jobs_are_accepted(url: Seq<char>)
    ensures
        rerun_target(url) is Some <==> (segments(url) matches Some(s) && s.len() >= 6 && s[3]
            == "actions"@ && s[4] == "runs"@ && number::is_number(s[5]) && (s.len() == 6 || (s.len()
            == 8 && (s[6] == "attempts"@ || (s[6] == "job"@ && number::is_number(s[7])))))),
        pr_address(url) is Some <==> (segments(url) matches Some(s) && s.len() >= 5 && s[3]
            == "pull"@ && number::is_number(s[4])),
        segments(url) is None <==> !"https://"@.is_prefix_of(
            url.take(text::scan(url, path_end()) as int),
        ),
{
}

/// The first segments of a URL, joined, are how it begins.
proof fn lemma_first_segments(url: Seq<char>, n: int)
    requires
        segments(url) is Some,
        0 < n <= segments(url)->0.len(),
    ensures
        ("https://"@ + text::join((segments(url)->0).take(n), seq!['/'])).is_prefix_of(url),
{
    let plain = without_query(url);
    let k = "https://"@.len() as int;
    let path = plain.skip(k);
    let trimmed = text::trim_end_char(path, '/');
    let s = segments(url)->0;
    text::lemma_scan_bounds(url, path_end());
    lemma_trimmed_prefix(path, '/');
    text::law_join_undoes_split(trimmed, '/');
    lemma_join_prefix(s, n);
    let start = text::join(s.take(n), seq!['/']);
    let whole = "https://"@ + start;
    assert forall|i: int| 0 <= i < whole.len() implies whole[i] == url[i] by {
        if i < k {
            assert(plain.take(k)[i] == plain[i]);
        } else {
            assert(trimmed.take(start.len() as int)[i - k] == trimmed[i - k]);
            assert(path.take(trimmed.len() as int)[i - k] == path[i - k]);
            assert(path[i - k] == plain[i]);
        }
    }
    assert(url.take(whole.len() as int) =~= whole);
}

/// The first entries of a list, joined, begin the whole list, joined.
proof fn lemma_join_prefix(s: Seq<Seq<char>>, n: int)
    requires
        0 < n <= s.len(),
    ensures
        text::join(s.take(n), seq!['/']).is_prefix_of(text::join(s, seq!['/'])),
    decreases s.len() - n,
{
    let start = text::join(s.take(n), seq!['/']);
    let all = text::join(s, seq!['/']);
    if n == s.len() {
        assert(s.take(n) =~= s);
        assert(all.take(start.len() as int) =~= start);
    } else {
        lemma_join_prefix(s, n + 1);
        let longer = text::join(s.take(n + 1), seq!['/']);
        assert(s.take(n + 1).drop_last() =~= s.take(n));
        assert(longer =~= start + (seq!['/'] + s[n]));
        assert(longer.take(start.len() as int) =~= start);
        assert(all.take(longer.len() as int).take(start.len() as int) =~= all.take(
            start.len() as int,
        ));
    }
}

} // verus!
