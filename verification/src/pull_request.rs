//! Pull requests: what GitHub reports of them, which are listed and in what order.

use vstd::prelude::*;
use vstd::string::*;

use crate::ci;
use crate::ci::{Check, CiStatus, Commits};
use crate::text;
use crate::time;
use crate::time::Timestamp;

verus! {

// ---------------------------------------------------------------------------
// The GraphQL responses
// ---------------------------------------------------------------------------

/// The answer to the query that lists pull requests.
#[derive(Debug, PartialEq)]
pub struct Response {
    pub data: Data,
}

#[derive(Debug, PartialEq)]
pub struct Data {
    pub search: Search,
    /// Absent unless the query asked for it.
    pub watched: Option<Search>,
}

#[derive(Debug, PartialEq)]
pub struct Search {
    pub nodes: Vec<PrNode>,
}

#[derive(Debug, PartialEq)]
pub struct PrNode {
    pub repository: Repository,
    /// Null for deleted accounts.
    pub author: Option<Author>,
    pub title: String,
    pub url: String,
    pub updated_at: String,
    pub is_draft: bool,
    pub commits: Commits,
}

#[derive(Debug, PartialEq)]
pub struct Repository {
    pub name_with_owner: String,
}

#[derive(Debug, PartialEq)]
pub struct Author {
    pub login: String,
}

/// The answer to a query about the resource at one URL.
#[derive(Debug, PartialEq)]
pub struct ResourceResponse {
    pub data: ResourceData,
}

#[derive(Debug, PartialEq)]
pub struct ResourceData {
    pub resource: Option<Resource>,
}

/// What is known of a resource. One that is no pull request has none of the fields.
#[derive(Debug, PartialEq)]
pub struct Resource {
    pub title: Option<String>,
    pub repository: Option<Repository>,
    pub head_ref_name: Option<String>,
    pub head_ref_oid: Option<String>,
    pub head_repository: Option<Repository>,
    pub commits: Option<Commits>,
}

// ---------------------------------------------------------------------------
// Pull requests
// ---------------------------------------------------------------------------

/// A pull request as it is listed.
#[derive(Debug, PartialEq)]
pub struct PullRequest {
    pub repo: String,
    pub author: String,
    pub title: String,
    pub url: String,
    pub updated_at: String,
    pub ci: CiStatus,
    pub is_draft: bool,
    /// Failed or running checks; only fetched with `--actions`.
    pub checks: Vec<Check>,
}

/// The model of a `PullRequest`.
pub struct PullRequestModel {
    pub repo: Seq<char>,
    pub author: Seq<char>,
    pub title: Seq<char>,
    pub url: Seq<char>,
    pub updated_at: Seq<char>,
    pub ci: CiStatus,
    pub is_draft: bool,
    pub checks: Seq<ci::CheckModel>,
}

impl DeepView for PullRequest {
    type V = PullRequestModel;

    open spec fn deep_view(&self) -> PullRequestModel {
        PullRequestModel {
            repo: self.repo@,
            author: self.author@,
            title: self.title@,
            url: self.url@,
            updated_at: self.updated_at@,
            ci: self.ci,
            is_draft: self.is_draft,
            checks: self.checks.deep_view(),
        }
    }
}

/// What is listed of a reported pull request.
pub open spec fn pr_of(node: PrNode) -> PullRequestModel {
    PullRequestModel {
        repo: node.repository.name_with_owner@,
        author: match node.author {
            Some(a) => a.login@,
            None => "ghost"@,
        },
        title: node.title@,
        url: node.url@,
        updated_at: node.updated_at@,
        ci: ci::status_of_state(node.commits.state()),
        is_draft: node.is_draft,
        checks: ci::pending_checks(node.commits.contexts()),
    }
}

impl vstd::std_specs::convert::FromSpecImpl<PrNode> for PullRequest {
    open spec fn obeys_from_spec() -> bool {
        false
    }

    open spec fn from_spec(node: PrNode) -> PullRequest {
        arbitrary()
    }
}

impl From<PrNode> for PullRequest {
    fn from(node: PrNode) -> (pr: Self)
        ensures
            pr.deep_view() == pr_of(node),
    {
        let ci = node.commits.ci_status();
        let author = match node.author {
            Some(a) => a.login,
            None => "ghost".to_owned(),
        };
        PullRequest {
            ci,
            repo: node.repository.name_with_owner,
            author,
            title: node.title,
            url: node.url,
            updated_at: node.updated_at,
            is_draft: node.is_draft,
            checks: node.commits.failed_or_running_checks(),
        }
    }
}

// ---------------------------------------------------------------------------
// Listing
// ---------------------------------------------------------------------------

/// What is listed of each of the reported pull requests.
pub open spec fn prs_of(nodes: Seq<PrNode>) -> Seq<PullRequestModel> {
    nodes.map_values(|n: PrNode| pr_of(n))
}

/// The user's own pull requests, then those of the watched repositories.
pub open spec fn reported(response: Response) -> Seq<PullRequestModel> {
    prs_of(response.data.search.nodes@) + match response.data.watched {
        Some(w) => prs_of(w.nodes@),
        None => seq![],
    }
}

/// Whether no pull request stands before one that was updated later.
pub open spec fn newest_first(prs: Seq<PullRequestModel>) -> bool {
    forall|i: int, j: int|
        0 <= i < j < prs.len() ==> !text::precedes(
            (#[trigger] prs[i]).updated_at,
            (#[trigger] prs[j]).updated_at,
        )
}

/// Picks the pull requests that were updated at `time`.
pub open spec fn updated(time: Seq<char>) -> spec_fn(PullRequestModel) -> bool {
    |pr: PullRequestModel| pr.updated_at == time
}

/// Whether `sorted` holds the pull requests of `given`, the most recently updated ones first, and
/// those that were updated at the same time in the order that they had.
pub open spec fn sorts(given: Seq<PullRequestModel>, sorted: Seq<PullRequestModel>) -> bool {
    &&& newest_first(sorted)
    &&& forall|time: Seq<char>|
        sorted.filter(#[trigger] updated(time)) == given.filter(updated(time))
}

/// One more pull request in its place.
proof fn lemma_insert(
    given: Seq<PullRequestModel>,
    sorted: Seq<PullRequestModel>,
    pr: PullRequestModel,
    k: int,
)
    requires
        sorts(given, sorted),
        0 <= k <= sorted.len(),
        forall|i: int| 0 <= i < k ==> !text::precedes(sorted[i].updated_at, pr.updated_at),
        k < sorted.len() ==> text::precedes(sorted[k].updated_at, pr.updated_at),
    ensures
        sorts(given.push(pr), sorted.insert(k, pr)),
{
    let result = sorted.insert(k, pr);
    let front = sorted.take(k);
    let back = sorted.skip(k);
    assert forall|i: int| k <= i < sorted.len() implies text::precedes(
        (#[trigger] sorted[i]).updated_at,
        pr.updated_at,
    ) by {
        text::lemma_precedes_total(sorted[k].updated_at, sorted[i].updated_at);
        if i > k && sorted[k].updated_at != sorted[i].updated_at {
            text::lemma_precedes_transitive(
                sorted[i].updated_at,
                sorted[k].updated_at,
                pr.updated_at,
            );
        }
    }
    assert forall|i: int, j: int| 0 <= i < j < result.len() implies !text::precedes(
        (#[trigger] result[i]).updated_at,
        (#[trigger] result[j]).updated_at,
    ) by {
        if i == k {
            assert(result[j] == sorted[j - 1]);
            text::lemma_precedes_total(sorted[j - 1].updated_at, pr.updated_at);
        } else if j == k {
            assert(result[i] == sorted[i]);
        } else {
            let a = if i < k {
                i
            } else {
                i - 1
            };
            let b = if j < k {
                j
            } else {
                j - 1
            };
            assert(result[i] == sorted[a] && result[j] == sorted[b]);
        }
    }
    assert forall|time: Seq<char>| result.filter(#[trigger] updated(time)) == given.push(
        pr,
    ).filter(updated(time)) by {
        let p = updated(time);
        assert(sorted.filter(p) == given.filter(p));
        ci::lemma_filter_push(given, pr, p);
        ci::lemma_filter_push(front, pr, p);
        assert(sorted =~= front + back);
        assert(result =~= front.push(pr) + back);
        Seq::filter_distributes_over_add(front, back, p);
        Seq::filter_distributes_over_add(front.push(pr), back, p);
        if p(pr) {
            assert(back.filter(p) =~= seq![]) by {
                broadcast use vstd::seq_lib::group_filter_ensures;

                if back.filter(p).len() > 0 {
                    let x = back.filter(p)[0];
                    assert(p(x));
                    lemma_filter_member(back, p, x);
                    let i = choose|i: int| 0 <= i < back.len() && back[i] == x;
                    assert(sorted[k + i] == x);
                    text::lemma_precedes_total(x.updated_at, pr.updated_at);
                }
            }
            assert(front.filter(p) + back.filter(p) =~= front.filter(p));
            assert(front.filter(p).push(pr) + back.filter(p) =~= front.filter(p).push(pr));
        }
    }
}

/// What a filter keeps was there before.
proof fn lemma_filter_member<A>(s: Seq<A>, p: spec_fn(A) -> bool, x: A)
    requires
        s.filter(p).contains(x),
    ensures
        s.contains(x),
    decreases s.len(),
{
    reveal(Seq::filter);
    if s.len() > 0 {
        let front = s.drop_last();
        if s.last() == x {
            assert(s[s.len() - 1] == x);
        } else {
            let k = choose|k: int| 0 <= k < s.filter(p).len() && s.filter(p)[k] == x;
            assert(front.filter(p)[k] == x);
            lemma_filter_member(front, p, x);
            let i = choose|i: int| 0 <= i < front.len() && front[i] == x;
            assert(s[i] == x);
        }
    }
}

/// The place of a pull request that was updated at `time` among `sorted`: behind those that were
/// not updated before it.
fn place(sorted: &Vec<PullRequest>, time: &str) -> (k: usize)
    ensures
        k <= sorted@.len(),
        forall|i: int| 0 <= i < k ==> !text::precedes(sorted.deep_view()[i].updated_at, time@),
        k < sorted@.len() ==> text::precedes(sorted.deep_view()[k as int].updated_at, time@),
{
    let mut k: usize = 0;
    while k < sorted.len() && !text::comes_before(sorted[k].updated_at.as_str(), time)
        invariant
            k <= sorted@.len(),
            forall|i: int| 0 <= i < k ==> !text::precedes(sorted.deep_view()[i].updated_at, time@),
        decreases sorted@.len() - k,
    {
        k = k + 1;
    }
    k
}

/// Adds what is listed of `nodes` to `sorted`.
fn insert_all(
    sorted: Vec<PullRequest>,
    nodes: Vec<PrNode>,
    given: Ghost<Seq<PullRequestModel>>,
) -> (r: Vec<PullRequest>)
    requires
        sorts(given@, sorted.deep_view()),
    ensures
        sorts(given@ + prs_of(nodes@), r.deep_view()),
{
    let mut r = sorted;
    let ghost all = prs_of(nodes@);
    let ghost list = nodes@;
    assert(given@ + all.take(0) =~= given@);
    for node in it: nodes
        invariant
            it.seq() == list,
            all == prs_of(list),
            sorts(given@ + all.take(it.index() as int), r.deep_view()),
    {
        let ghost seen = given@ + all.take(it.index() as int);
        let pr = PullRequest::from(node);
        let k = place(&r, pr.updated_at.as_str());
        let ghost before = r.deep_view();
        let ghost model = pr.deep_view();
        proof {
            lemma_insert(seen, before, model, k as int);
            assert(given@ + all.take(it.index() + 1) =~= seen.push(model));
        }
        r.insert(k, pr);
        assert(r.deep_view() =~= before.insert(k as int, model));
    }
    assert(all.take(all.len() as int) =~= all);
    r
}

/// What to list of a response, the most recently updated pull requests first. `response` is what
/// `gh` printed, decoded, or the reason why it could not be decoded.
pub fn parse_prs(response: Result<Response, String>) -> (prs: Result<Vec<PullRequest>, String>)
    ensures
        match response {
            Ok(r) => prs matches Ok(list) && sorts(reported(r), list.deep_view()),
            Err(e) => prs matches Err(message) && message@ == "failed to parse gh output: "@ + e@,
        },
{
    match response {
        Ok(r) => {
            let Data { search, watched } = r.data;
            let empty: Vec<PullRequest> = Vec::new();
            let ghost none = Seq::<PullRequestModel>::empty();
            let ghost own = prs_of(search.nodes@);
            assert(empty.deep_view() =~= none);
            let list = insert_all(empty, search.nodes, Ghost(none));
            assert(none + own =~= own);
            // updatedAt is ISO 8601 in UTC, so lexicographic order is chronological.
            match watched {
                Some(w) => Ok(insert_all(list, w.nodes, Ghost(own))),
                None => {
                    assert(own + Seq::<PullRequestModel>::empty() =~= own);
                    Ok(list)
                },
            }
        },
        Err(e) => Err(text::join2("failed to parse gh output: ", e.as_str())),
    }
}

// ---------------------------------------------------------------------------
// Hiding
// ---------------------------------------------------------------------------

/// After how many days without an update a release's pull request is hidden.
pub const RELEASE_MAX_AGE_DAYS: i64 = 30;

/// Whether a pull request that was updated at `updated`, if that is known, is hidden at `now`.
/// Drafts are hidden unless asked for. Release PRs are opened by bots and tend to linger; they are
/// hidden once they're stale.
pub open spec fn hidden(
    pr: PullRequestModel,
    updated: Option<time::Moment>,
    now: time::Moment,
    show_drafts: bool,
) -> bool {
    if pr.is_draft {
        !show_drafts
    } else {
        match updated {
            Some(t) => "chore: release"@.is_prefix_of(pr.title) && now.since(t)
                >= RELEASE_MAX_AGE_DAYS * 86_400 * time::SECOND,
            None => false,
        }
    }
}

/// Picks the pull requests that are listed at `now`.
pub open spec fn listed(now: time::Moment, show_drafts: bool) -> spec_fn(PullRequestModel) -> bool {
    |pr: PullRequestModel| !hidden(pr, time::moment_in(pr.updated_at), now, show_drafts)
}

/// Whether `pr`, if it was updated at `updated`, is hidden at `now`.
pub fn is_hidden_since(
    pr: &PullRequest,
    updated: Option<Timestamp>,
    now: Timestamp,
    show_drafts: bool,
) -> (yes: bool)
    ensures
        yes == hidden(pr.deep_view(), updated.deep_view(), now.deep_view(), show_drafts),
{
    if pr.is_draft {
        return !show_drafts;
    }
    match updated {
        Some(t) => {
            let span = now.since(&t);
            let limit: i64 = RELEASE_MAX_AGE_DAYS * 86_400;
            text::starts_with(pr.title.as_str(), "chore: release") && span.secs >= limit
        },
        None => false,
    }
}

/// Whether `pr` is hidden at `now`.
pub fn is_hidden(pr: &PullRequest, now: Timestamp, show_drafts: bool) -> (yes: bool)
    ensures
        yes == hidden(
            pr.deep_view(),
            time::moment_in(pr.deep_view().updated_at),
            now.deep_view(),
            show_drafts,
        ),
{
    is_hidden_since(pr, Timestamp::parse(pr.updated_at.as_str()), now, show_drafts)
}

/// The pull requests that are not hidden at `now`, in the order that they have.
pub fn filter_prs(prs: Vec<PullRequest>, now: Timestamp, show_drafts: bool) -> (r: Vec<
    PullRequest,
>)
    ensures
        r.deep_view() == prs.deep_view().filter(listed(now.deep_view(), show_drafts)),
{
    let mut r: Vec<PullRequest> = Vec::new();
    let ghost all = prs.deep_view();
    let ghost list = prs@;
    let ghost p = listed(now.deep_view(), show_drafts);
    assert(r.deep_view() =~= all.take(0).filter(p)) by {
        reveal(Seq::filter);
    }
    for pr in it: prs
        invariant
            it.seq() == list,
            all.len() == list.len(),
            forall|i: int| 0 <= i < list.len() ==> all[i] == (#[trigger] list[i]).deep_view(),
            p == listed(now.deep_view(), show_drafts),
            r.deep_view() == all.take(it.index() as int).filter(p),
    {
        let ghost seen = all.take(it.index() as int);
        let ghost before = r.deep_view();
        let ghost model = pr.deep_view();
        proof {
            assert(all.take(it.index() + 1) =~= seen.push(model));
            ci::lemma_filter_push(seen, model, p);
        }
        if !is_hidden(&pr, now, show_drafts) {
            r.push(pr);
            assert(r.deep_view() =~= before.push(model));
        }
    }
    assert(all.take(all.len() as int) =~= all);
    r
}

// ---------------------------------------------------------------------------
// A single pull request
// ---------------------------------------------------------------------------

/// What is needed of a single pull request to wait for it or to merge it.
#[derive(Debug, PartialEq)]
pub struct PrInfo {
    pub ci: CiStatus,
    pub title: String,
    pub repo: String,
    pub head_branch: String,
    pub head_oid: String,
    /// None if the head repository (e.g. a fork) was deleted.
    pub head_repo: Option<String>,
}

/// The model of a `PrInfo`.
pub struct PrInfoModel {
    pub ci: CiStatus,
    pub title: Seq<char>,
    pub repo: Seq<char>,
    pub head_branch: Seq<char>,
    pub head_oid: Seq<char>,
    pub head_repo: Option<Seq<char>>,
}

impl DeepView for PrInfo {
    type V = PrInfoModel;

    open spec fn deep_view(&self) -> PrInfoModel {
        PrInfoModel {
            ci: self.ci,
            title: self.title@,
            repo: self.repo@,
            head_branch: self.head_branch@,
            head_oid: self.head_oid@,
            head_repo: self.head_repo.deep_view(),
        }
    }
}

/// The pull request that a resource is, if it has all that a pull request has.
pub open spec fn info_of(resource: Option<Resource>) -> Option<PrInfoModel> {
    match resource {
        Some(
            Resource {
                title: Some(title),
                repository: Some(repository),
                head_ref_name: Some(head_ref_name),
                head_ref_oid: Some(head_ref_oid),
                head_repository,
                commits: Some(commits),
            },
        ) => Some(
            PrInfoModel {
                ci: ci::status_of_state(commits.state()),
                title: title@,
                repo: repository.name_with_owner@,
                head_branch: head_ref_name@,
                head_oid: head_ref_oid@,
                head_repo: match head_repository {
                    Some(r) => Some(r.name_with_owner@),
                    None => None,
                },
            },
        ),
        _ => None,
    }
}

/// The pull request in a response, or why there is none.
pub open spec fn pr_in(response: Result<ResourceResponse, String>) -> Result<
    PrInfoModel,
    Seq<char>,
> {
    match response {
        Ok(r) => match info_of(r.data.resource) {
            Some(model) => Ok(model),
            None => Err("not a pull request URL"@),
        },
        Err(e) => Err("failed to parse gh output: "@ + e@),
    }
}

/// The pull request in a response. `response` is what `gh` printed, decoded, or the reason why it
/// could not be decoded.
pub fn parse_pr_info(response: Result<ResourceResponse, String>) -> (info: Result<PrInfo, String>)
    ensures
        text::outcome(info) == match response {
            Ok(r) => match info_of(r.data.resource) {
                Some(model) => Ok(model),
                None => Err("not a pull request URL"@),
            },
            Err(e) => Err("failed to parse gh output: "@ + e@),
        },
        text::outcome(info) == pr_in(response),
{
    match response {
        Ok(r) => match r.data.resource {
            Some(
                Resource {
                    title: Some(title),
                    repository: Some(repository),
                    head_ref_name: Some(head_branch),
                    head_ref_oid: Some(head_oid),
                    head_repository,
                    commits: Some(commits),
                },
            ) => {
                let head_repo = match head_repository {
                    Some(h) => Some(h.name_with_owner),
                    None => None,
                };
                Ok(
                    PrInfo {
                        ci: commits.ci_status(),
                        title,
                        repo: repository.name_with_owner,
                        head_branch,
                        head_oid,
                        head_repo,
                    },
                )
            },
            _ => Err("not a pull request URL".to_owned()),
        },
        Err(e) => Err(text::join2("failed to parse gh output: ", e.as_str())),
    }
}

/// The Actions runs with a failed or cancelled job on the pull request in a response.
pub open spec fn failed_ids(response: Result<ResourceResponse, String>) -> Result<
    Seq<u64>,
    Seq<char>,
> {
    match response {
        Ok(ResourceResponse {
            data: ResourceData { resource: Some(Resource { commits: Some(commits), .. }) },
        }) => Ok(ci::failed_runs(commits.contexts())),
        Ok(_) => Err("not a pull request URL"@),
        Err(e) => Err("failed to parse gh output: "@ + e@),
    }
}

/// The Actions runs with a failed or cancelled job on the pull request in a response. `response`
/// is what `gh` printed, decoded, or the reason why it could not be decoded.
pub fn parse_failed_run_ids(response: Result<ResourceResponse, String>) -> (ids: Result<
    Vec<u64>,
    String,
>)
    ensures
        match response {
            Ok(ResourceResponse {
                data: ResourceData { resource: Some(Resource { commits: Some(commits), .. }) },
            }) => ids matches Ok(list) && list@ == ci::failed_runs(commits.contexts()),
            Ok(_) => ids matches Err(message) && message@ == "not a pull request URL"@,
            Err(e) => ids matches Err(message) && message@ == "failed to parse gh output: "@ + e@,
        },
        text::outcome(ids) == failed_ids(response),
{
    match response {
        Ok(r) => match r.data.resource {
            Some(Resource { commits: Some(commits), .. }) => {
                let ids = commits.failed_run_ids();
                assert(ids.deep_view() =~= ids@);
                Ok(ids)
            },
            _ => Err("not a pull request URL".to_owned()),
        },
        Err(e) => Err(text::join2("failed to parse gh output: ", e.as_str())),
    }
}

// ---------------------------------------------------------------------------
// Laws
// ---------------------------------------------------------------------------

/// Filtering a list from the front.
proof fn lemma_filter_first<A>(s: Seq<A>, p: spec_fn(A) -> bool)
    requires
        s.len() > 0,
    ensures
        s.filter(p) == if p(s[0]) {
            seq![s[0]] + s.drop_first().filter(p)
        } else {
            s.drop_first().filter(p)
        },
{
    let head = seq![s[0]];
    assert(s =~= head + s.drop_first());
    Seq::filter_distributes_over_add(head, s.drop_first(), p);
    assert(head =~= Seq::<A>::empty().push(s[0]));
    ci::lemma_filter_push(Seq::<A>::empty(), s[0], p);
    assert(Seq::<A>::empty().filter(p) =~= Seq::<A>::empty()) by {
        reveal(Seq::filter);
    }
    assert(Seq::<A>::empty() + s.drop_first().filter(p) =~= s.drop_first().filter(p));
    assert(Seq::<A>::empty().push(s[0]) + s.drop_first().filter(p) =~= head
        + s.drop_first().filter(p));
}

/// The first of two sorted lists with the same elements was not updated before that of the other.
proof fn lemma_same_first(a: Seq<PullRequestModel>, b: Seq<PullRequestModel>)
    requires
        newest_first(b),
        forall|time: Seq<char>| a.filter(#[trigger] updated(time)) == b.filter(updated(time)),
        a.len() > 0,
    ensures
        b.len() > 0,
        !text::precedes(b[0].updated_at, a[0].updated_at),
{
    let p = updated(a[0].updated_at);
    assert(a.filter(p) == b.filter(p));
    lemma_filter_first(a, p);
    let x = a.filter(p)[0];
    assert(x == a[0]);
    assert(b.filter(p)[0] == x);
    assert(b.filter(p).contains(x));
    lemma_filter_member(b, p, x);
    let i = choose|i: int| 0 <= i < b.len() && b[i] == x;
    text::lemma_precedes_total(b[0].updated_at, b[0].updated_at);
    if i > 0 {
        assert(!text::precedes(b[0].updated_at, b[i].updated_at));
    }
}

proof fn lemma_determined(a: Seq<PullRequestModel>, b: Seq<PullRequestModel>)
    requires
        newest_first(a),
        newest_first(b),
        forall|time: Seq<char>| a.filter(#[trigger] updated(time)) == b.filter(updated(time)),
    ensures
        a == b,
    decreases a.len(),
{
    if a.len() == 0 {
        if b.len() > 0 {
            lemma_same_first(b, a);
        }
        assert(a =~= b);
    } else {
        lemma_same_first(a, b);
        lemma_same_first(b, a);
        text::lemma_precedes_total(a[0].updated_at, b[0].updated_at);
        let first = updated(a[0].updated_at);
        assert(a.filter(first) == b.filter(first));
        lemma_filter_first(a, first);
        lemma_filter_first(b, first);
        assert(a.filter(first)[0] == a[0]);
        assert(b.filter(first)[0] == b[0]);
        let x = a.drop_first();
        let y = b.drop_first();
        assert forall|time: Seq<char>| x.filter(#[trigger] updated(time)) == y.filter(
            updated(time),
        ) by {
            let p = updated(time);
            assert(a.filter(p) == b.filter(p));
            lemma_filter_first(a, p);
            lemma_filter_first(b, p);
            if p(a[0]) {
                assert((seq![a[0]] + x.filter(p)).drop_first() =~= x.filter(p));
                assert((seq![b[0]] + y.filter(p)).drop_first() =~= y.filter(p));
            }
        }
        assert(newest_first(x)) by {
            assert forall|i: int, j: int| 0 <= i < j < x.len() implies !text::precedes(
                (#[trigger] x[i]).updated_at,
                (#[trigger] x[j]).updated_at,
            ) by {
                assert(x[i] == a[i + 1] && x[j] == a[j + 1]);
            }
        }
        assert(newest_first(y)) by {
            assert forall|i: int, j: int| 0 <= i < j < y.len() implies !text::precedes(
                (#[trigger] y[i]).updated_at,
                (#[trigger] y[j]).updated_at,
            ) by {
                assert(y[i] == b[i + 1] && y[j] == b[j + 1]);
            }
        }
        lemma_determined(x, y);
        assert(a =~= seq![a[0]] + x);
        assert(b =~= seq![b[0]] + y);
    }
}

/// What is reported decides the list: there is only one way to sort it.
pub proof fn law_sorting_is_determined(
    given: Seq<PullRequestModel>,
    a: Seq<PullRequestModel>,
    b: Seq<PullRequestModel>,
)
    requires
        sorts(given, a),
        sorts(given, b),
    ensures
        a == b,
{
    assert forall|time: Seq<char>| a.filter(#[trigger] updated(time)) == b.filter(
        updated(time),
    ) by {
        assert(a.filter(updated(time)) == given.filter(updated(time)));
    }
    lemma_determined(a, b);
}

proof fn lemma_filter_count<A>(s: Seq<A>, p: spec_fn(A) -> bool, x: A)
    requires
        p(x),
    ensures
        s.to_multiset().count(x) == s.filter(p).to_multiset().count(x),
    decreases s.len(),
{
    broadcast use vstd::seq_lib::group_to_multiset_ensures;

    if s.len() == 0 {
        reveal(Seq::filter);
        assert(s.filter(p) =~= s);
    } else {
        let front = s.drop_last();
        lemma_filter_count(front, p, x);
        assert(s =~= front.push(s.last()));
        ci::lemma_filter_push(front, s.last(), p);
    }
}

/// Sorting loses no pull request, adds none and repeats none.
pub proof fn law_sorting_keeps_all(given: Seq<PullRequestModel>, sorted: Seq<PullRequestModel>)
    requires
        sorts(given, sorted),
    ensures
        sorted.to_multiset() == given.to_multiset(),
        sorted.len() == given.len(),
{
    broadcast use vstd::seq_lib::group_to_multiset_ensures;

    assert forall|x: PullRequestModel| #[trigger] sorted.to_multiset().count(x)
        == given.to_multiset().count(x) by {
        let p = updated(x.updated_at);
        assert(sorted.filter(p) == given.filter(p));
        lemma_filter_count(sorted, p, x);
        lemma_filter_count(given, p, x);
    }
    assert(sorted.to_multiset() =~= given.to_multiset());
    assert(sorted.len() == sorted.to_multiset().len());
    assert(given.len() == given.to_multiset().len());
}

/// Of two listed pull requests whose times are written as GitHub writes them, the one that stands
/// first was updated last, or both at the same time.
pub proof fn law_list_is_chronological(
    prs: Seq<PullRequestModel>,
    i: int,
    j: int,
    a: crate::calendar::Civil,
    b: crate::calendar::Civil,
)
    requires
        newest_first(prs),
        0 <= i < j < prs.len(),
        a.valid(),
        b.valid(),
        prs[i].updated_at == a.text(),
        prs[j].updated_at == b.text(),
    ensures
        a.secs() >= b.secs(),
{
    crate::calendar::law_text_order_is_chronological(a, b);
}

/// A release whose time is written as GitHub writes it is hidden exactly if it was not updated for
/// thirty days or more, unless it is a draft; other pull requests that are no drafts are never
/// hidden.
pub proof fn law_stale_releases_are_hidden(
    pr: PullRequestModel,
    t: crate::calendar::Civil,
    now: time::Moment,
    show_drafts: bool,
)
    requires
        t.valid(),
        pr.updated_at == t.text(),
        !pr.is_draft,
    ensures
        listed(now, show_drafts)(pr) <==> !("chore: release"@.is_prefix_of(pr.title) && now.since(
            time::Moment { secs: t.secs(), nanos: 0 },
        ) >= 30 * 86_400 * time::SECOND),
{
    time::law_written_times_are_read(t);
}

/// Hiding pull requests leaves the others in their order.
pub proof fn law_hiding_keeps_the_order(
    prs: Seq<PullRequestModel>,
    now: time::Moment,
    show_drafts: bool,
)
    requires
        newest_first(prs),
    ensures
        newest_first(prs.filter(listed(now, show_drafts))),
    decreases prs.len(),
{
    let p = listed(now, show_drafts);
    if prs.len() == 0 {
        reveal(Seq::filter);
    } else {
        let front = prs.drop_last();
        assert(newest_first(front)) by {
            assert forall|i: int, j: int| 0 <= i < j < front.len() implies !text::precedes(
                (#[trigger] front[i]).updated_at,
                (#[trigger] front[j]).updated_at,
            ) by {
                assert(front[i] == prs[i] && front[j] == prs[j]);
            }
        }
        law_hiding_keeps_the_order(front, now, show_drafts);
        assert(prs =~= front.push(prs.last()));
        ci::lemma_filter_push(front, prs.last(), p);
        let kept = front.filter(p);
        let all = prs.filter(p);
        assert forall|i: int, j: int| 0 <= i < j < all.len() implies !text::precedes(
            (#[trigger] all[i]).updated_at,
            (#[trigger] all[j]).updated_at,
        ) by {
            assert(all[i] == kept[i]);
            if j == kept.len() {
                assert(kept.contains(kept[i]));
                lemma_filter_member(front, p, kept[i]);
                let k = choose|k: int| 0 <= k < front.len() && front[k] == kept[i];
                assert(prs[k] == kept[i] && prs[prs.len() - 1] == all[j]);
            } else {
                assert(all[j] == kept[j]);
            }
        }
    }
}

/// A pull request is listed with what is reported of it: each text as it is, the author or, where
/// the account is gone, a ghost.
pub proof fn law_pull_requests_are_listed_as_reported(node: PrNode)
    ensures
        ({
            let pr = pr_of(node);
            &&& pr.repo == node.repository.name_with_owner@
            &&& node.author matches Some(a) ==> pr.author == a.login@
            &&& node.author is None ==> pr.author == seq!['g', 'h', 'o', 's', 't']
            &&& pr.title == node.title@
            &&& pr.url == node.url@
            &&& pr.updated_at == node.updated_at@
            &&& pr.is_draft == node.is_draft
        }),
{
    reveal_strlit("ghost");
    assert("ghost"@ =~= seq!['g', 'h', 'o', 's', 't']);
}

/// Where the CI of a listed pull request stands depends on its commits alone, draft or not: the
/// state of the first commit's rollup says it.
pub proof fn law_the_head_commit_says_where_ci_stands(node: PrNode)
    ensures
        ({
            let ci = pr_of(node).ci;
            let nodes = node.commits.nodes@;
            let state = if nodes.len() > 0 && nodes[0].commit.status_check_rollup is Some {
                Some(nodes[0].commit.status_check_rollup->0.state@)
            } else {
                None
            };
            &&& ci is Success <==> state == Some("SUCCESS"@)
            &&& ci is Failure <==> state == Some("FAILURE"@) || state == Some("ERROR"@)
            &&& ci is Running <==> state == Some("PENDING"@) || state == Some("EXPECTED"@)
        }),
{
    ci::law_the_first_commit_counts(node.commits);
    ci::law_states_say_where_ci_stands(node.commits.state());
}

/// The checks that are listed under a pull request are those of its first commit that failed or
/// run, draft or not.
pub proof fn law_the_head_commit_has_the_checks(
    node: PrNode,
    rollup: ci::Rollup,
    contexts: ci::Contexts,
    check: ci::CheckModel,
)
    requires
        node.commits.nodes@.len() > 0,
        node.commits.nodes@[0].commit.status_check_rollup == Some(rollup),
        rollup.contexts == Some(contexts),
    ensures
        pr_of(node).checks == ci::pending_checks(contexts.nodes@),
        pr_of(node).checks.contains(check) <==> (check.ci is Failure || check.ci is Running)
            && exists|i: int|
            0 <= i < contexts.nodes@.len() && #[trigger] ci::check_of(contexts.nodes@[i]) == check,
{
    ci::law_the_first_commit_counts(node.commits);
    ci::law_a_check_is_pending_if_it_failed_or_runs(contexts.nodes@, check);
}

/// Where no checks are reported, none are listed.
pub proof fn law_without_contexts_there_are_no_checks(node: PrNode)
    requires
        node.commits.nodes@.len() > 0 ==> (
        node.commits.nodes@[0].commit.status_check_rollup matches Some(r) ==> r.contexts is None),
    ensures
        pr_of(node).checks.len() == 0,
{
    ci::law_the_first_commit_counts(node.commits);
    reveal(Seq::filter);
    assert(ci::checks_of(node.commits.contexts()) =~= seq![]);
}

/// Every pull request of the response is reported, the user's own first, each in its place.
pub proof fn law_every_pull_request_is_reported(response: Response, i: int)
    ensures
        ({
            let own = response.data.search.nodes@;
            let all = reported(response);
            &&& response.data.watched is None ==> all.len() == own.len()
            &&& response.data.watched matches Some(w) ==> all.len() == own.len() + w.nodes@.len()
            &&& 0 <= i < own.len() ==> all[i] == pr_of(own[i])
            &&& own.len() <= i < all.len() ==> all[i] == pr_of(
                response.data.watched->0.nodes@[i - own.len()],
            )
        }),
{
}

/// The list is sorted by the time of the update, the latest first; and pull requests that were
/// updated at the same time stand in the order in which they were reported.
pub proof fn law_sorting_is_stable(
    given: Seq<PullRequestModel>,
    sorted: Seq<PullRequestModel>,
    time: Seq<char>,
    at_that_time: spec_fn(PullRequestModel) -> bool,
    i: int,
    j: int,
)
    requires
        sorts(given, sorted),
        forall|pr: PullRequestModel| #[trigger] at_that_time(pr) <==> pr.updated_at == time,
    ensures
        sorted.filter(at_that_time) == given.filter(at_that_time),
        0 <= i < j < sorted.len() ==> !text::precedes(sorted[i].updated_at, sorted[j].updated_at),
{
    assert forall|pr: PullRequestModel| #[trigger] at_that_time(pr) == updated(time)(pr) by {}
    assert(at_that_time =~= updated(time));
    assert(sorted.filter(updated(time)) == given.filter(updated(time)));
}

/// A pull request is hidden for one of two reasons only: it is a draft and drafts are not asked
/// for, or it is no draft but a release that is known to have had no update for thirty days.
pub proof fn law_only_drafts_and_stale_releases_are_hidden(
    pr: PullRequestModel,
    updated_at: Option<time::Moment>,
    now: time::Moment,
    show_drafts: bool,
)
    ensures
        pr.is_draft ==> (hidden(pr, updated_at, now, show_drafts) <==> !show_drafts),
        !pr.is_draft && updated_at is None ==> !hidden(pr, updated_at, now, show_drafts),
        !pr.is_draft && !"chore: release"@.is_prefix_of(pr.title) ==> !hidden(
            pr,
            updated_at,
            now,
            show_drafts,
        ),
        !pr.is_draft && "chore: release"@.is_prefix_of(pr.title) && updated_at is Some ==> (hidden(
            pr,
            updated_at,
            now,
            show_drafts,
        ) <==> now.since(updated_at->0) >= 2_592_000_000_000_000),
{
}

/// Whether a pull request is listed is decided by its update time as it is written.
pub proof fn law_the_written_time_decides(
    pr: PullRequestModel,
    now: time::Moment,
    show_drafts: bool,
)
    ensures
        listed(now, show_drafts)(pr) <==> !hidden(
            pr,
            time::moment_in(pr.updated_at),
            now,
            show_drafts,
        ),
        pr.is_draft ==> (listed(now, show_drafts)(pr) <==> show_drafts),
{
}

/// A resource is a pull request exactly if it has a title, a repository, a head branch, a head
/// commit and commits; that its head repository is gone does not matter.
pub proof fn law_pull_requests_are_complete(resource: Option<Resource>)
    ensures
        info_of(resource) is Some <==> (resource matches Some(r) && r.title is Some && r.repository
            is Some && r.head_ref_name is Some && r.head_ref_oid is Some && r.commits is Some),
{
}

/// Everything that is known of a pull request is what the response says of it. In particular, the
/// head repository is the one that the response names as such, whatever the repository is.
pub proof fn law_pull_requests_are_read_as_reported(resource: Resource)
    requires
        info_of(Some(resource)) is Some,
    ensures
        ({
            let pr = info_of(Some(resource))->0;
            &&& pr.title == resource.title->0@
            &&& pr.repo == resource.repository->0.name_with_owner@
            &&& pr.head_branch == resource.head_ref_name->0@
            &&& pr.head_oid == resource.head_ref_oid->0@
            &&& resource.head_repository matches Some(r) ==> pr.head_repo == Some(
                r.name_with_owner@,
            )
            &&& resource.head_repository is None ==> pr.head_repo is None
        }),
{
}

/// Where the CI of a single pull request stands: the state of its first commit's rollup says it.
pub proof fn law_the_head_commit_decides(resource: Resource)
    requires
        info_of(Some(resource)) is Some,
    ensures
        ({
            let ci = info_of(Some(resource))->0.ci;
            let nodes = resource.commits->0.nodes@;
            let state = if nodes.len() > 0 && nodes[0].commit.status_check_rollup is Some {
                Some(nodes[0].commit.status_check_rollup->0.state@)
            } else {
                None
            };
            &&& ci is Success <==> state == Some("SUCCESS"@)
            &&& ci is Failure <==> state == Some("FAILURE"@) || state == Some("ERROR"@)
            &&& ci is Running <==> state == Some("PENDING"@) || state == Some("EXPECTED"@)
        }),
{
    ci::law_the_first_commit_counts(resource.commits->0);
    ci::law_states_say_where_ci_stands(resource.commits->0.state());
}

/// The models of pull requests show every field.
pub proof fn law_models_show_every_field(pr: PullRequest, info: PrInfo)
    ensures
        pr.deep_view().repo == pr.repo@,
        pr.deep_view().author == pr.author@,
        pr.deep_view().title == pr.title@,
        pr.deep_view().url == pr.url@,
        pr.deep_view().updated_at == pr.updated_at@,
        pr.deep_view().ci == pr.ci,
        pr.deep_view().is_draft == pr.is_draft,
        pr.deep_view().checks.len() == pr.checks@.len(),
        forall|i: int|
            #![trigger pr.checks@[i]]
            0 <= i < pr.checks@.len() ==> pr.deep_view().checks[i].name == pr.checks@[i].name@
                && pr.deep_view().checks[i].ci == pr.checks@[i].ci && pr.deep_view().checks[i].url
                == pr.checks@[i].url@,
        info.deep_view().ci == info.ci,
        info.deep_view().title == info.title@,
        info.deep_view().repo == info.repo@,
        info.deep_view().head_branch == info.head_branch@,
        info.deep_view().head_oid == info.head_oid@,
        info.head_repo is None ==> info.deep_view().head_repo is None,
        info.head_repo matches Some(r) ==> info.deep_view().head_repo == Some(r@),
{
}

/// The runs to run again are those of the first commit of the pull request; a resource without
/// commits is none, and a response that cannot be decoded is explained.
pub proof fn law_runs_are_those_of_the_head_commit(
    response: ResourceResponse,
    resource: Resource,
    reason: String,
)
    requires
        response.data.resource == Some(resource),
    ensures
        resource.commits matches Some(c) ==> failed_ids(Ok(response)) == Ok::<Seq<u64>, Seq<char>>(
            ci::failed_runs(c.contexts()),
        ),
        resource.commits is None ==> failed_ids(Ok(response)) == Err::<Seq<u64>, Seq<char>>(
            "not a pull request URL"@,
        ),
        failed_ids(Err(reason)) == Err::<Seq<u64>, Seq<char>>(
            "failed to parse gh output: "@ + reason@,
        ),
{
}

/// A pull request is read exactly from a response that holds a whole one; else it is said why not.
pub proof fn law_a_pull_request_is_read_if_it_is_one(response: ResourceResponse, reason: String)
    ensures
        pr_in(Ok(response)) is Ok <==> (response.data.resource matches Some(r) && r.title is Some
            && r.repository is Some && r.head_ref_name is Some && r.head_ref_oid is Some
            && r.commits is Some),
        pr_in(Ok(response)) matches Ok(pr) ==> info_of(response.data.resource) == Some(pr),
        pr_in(Ok(response)) matches Err(e) ==> e == "not a pull request URL"@,
        pr_in(Err(reason)) == Err::<PrInfoModel, Seq<char>>(
            "failed to parse gh output: "@ + reason@,
        ),
{
}

} // verus!
