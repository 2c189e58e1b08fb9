//! The command line: what it asks for, and listing pull requests, which it asks for by default.

use vstd::prelude::*;
use vstd::string::*;

use crate::process;
use crate::process::{Command, Message};
use crate::pull_request;
use crate::pull_request::Response;
use crate::query;
use crate::table;
use crate::text;
use crate::time;
use crate::time::Timestamp;

verus! {

/// What to tell the user about a command line that asks for nothing known.
pub const USAGE: &'static str =
    "usage: gh_wrapper [--actions] [--draft] [--watched] | merge <pr-url> | rebase <pr-url> | wait <pr-url> | rerun <pr-run-or-job-url> | pr <branch>";

/// What the command line asks for.
#[derive(Debug, PartialEq)]
pub enum Invocation {
    /// Merge the pull request at the URL.
    Merge(String),
    /// Rebase the pull request at the URL.
    Rebase(String),
    /// Wait for the CI of the pull request at the URL.
    Wait(String),
    /// Run what the URL stands for again.
    Rerun(String),
    /// Open a pull request for the branch.
    Pr(String),
    /// List the open pull requests.
    List {
        /// With their failed or running checks.
        actions: bool,
        /// With drafts.
        draft: bool,
        /// With those of others in watched repositories.
        watched: bool,
    },
}

/// The model of an `Invocation`.
pub enum InvocationModel {
    Merge(Seq<char>),
    Rebase(Seq<char>),
    Wait(Seq<char>),
    Rerun(Seq<char>),
    Pr(Seq<char>),
    List { actions: bool, draft: bool, watched: bool },
}

impl DeepView for Invocation {
    type V = InvocationModel;

    open spec fn deep_view(&self) -> InvocationModel {
        match *self {
            Invocation::Merge(url) => InvocationModel::Merge(url@),
            Invocation::Rebase(url) => InvocationModel::Rebase(url@),
            Invocation::Wait(url) => InvocationModel::Wait(url@),
            Invocation::Rerun(url) => InvocationModel::Rerun(url@),
            Invocation::Pr(branch) => InvocationModel::Pr(branch@),
            Invocation::List { actions, draft, watched } => InvocationModel::List {
                actions,
                draft,
                watched,
            },
        }
    }
}

// ---------------------------------------------------------------------------
// Arguments
// ---------------------------------------------------------------------------

/// What a subcommand with its argument asks for.
pub open spec fn subcommand(name: Seq<char>, argument: Seq<char>) -> Option<InvocationModel> {
    if name == "merge"@ {
        Some(InvocationModel::Merge(argument))
    } else if name == "rebase"@ {
        Some(InvocationModel::Rebase(argument))
    } else if name == "wait"@ {
        Some(InvocationModel::Wait(argument))
    } else if name == "rerun"@ {
        Some(InvocationModel::Rerun(argument))
    } else if name == "pr"@ {
        Some(InvocationModel::Pr(argument))
    } else {
        None
    }
}

/// Whether an argument is a flag for listing.
pub open spec fn is_flag(arg: Seq<char>) -> bool {
    arg == "--actions"@ || arg == "--draft"@ || arg == "--watched"@
}

/// Whether all arguments are flags for listing.
pub open spec fn only_flags(args: Seq<Seq<char>>) -> bool {
    forall|i: int| 0 <= i < args.len() ==> is_flag(#[trigger] args[i])
}

/// What the arguments of the program ask for, if they are understood.
pub open spec fn invocation(args: Seq<Seq<char>>) -> Option<InvocationModel> {
    if args.len() == 2 && subcommand(args[0], args[1]) is Some {
        subcommand(args[0], args[1])
    } else if only_flags(args) {
        Some(
            InvocationModel::List {
                actions: args.contains("--actions"@),
                draft: args.contains("--draft"@),
                watched: args.contains("--watched"@),
            },
        )
    } else {
        None
    }
}

/// What a subcommand with its argument asks for.
fn parse_subcommand(name: &str, argument: &str) -> (r: Option<Invocation>)
    ensures
        r.deep_view() == subcommand(name@, argument@),
{
    if text::same(name, "merge") {
        Some(Invocation::Merge(argument.to_owned()))
    } else if text::same(name, "rebase") {
        Some(Invocation::Rebase(argument.to_owned()))
    } else if text::same(name, "wait") {
        Some(Invocation::Wait(argument.to_owned()))
    } else if text::same(name, "rerun") {
        Some(Invocation::Rerun(argument.to_owned()))
    } else if text::same(name, "pr") {
        Some(Invocation::Pr(argument.to_owned()))
    } else {
        None
    }
}

/// Whether `arg` is one of `args`.
fn given(args: &[String], arg: &str) -> (yes: bool)
    ensures
        yes == args.deep_view().contains(arg@),
{
    let ghost model = args.deep_view();
    for i in 0..args.len()
        invariant
            model == args.deep_view(),
            forall|k: int| 0 <= k < i ==> model[k] != arg@,
    {
        if text::same(args[i].as_str(), arg) {
            assert(model[i as int] == arg@);
            return true;
        }
        assert(model[i as int] != arg@);
    }
    false
}

/// What the arguments of the program ask for, if they are understood; `USAGE` says how to write
/// them.
pub fn parse_args(args: &[String]) -> (r: Option<Invocation>)
    ensures
        r.deep_view() == invocation(args.deep_view()),
{
    let ghost model = args.deep_view();
    if args.len() == 2 {
        if let Some(i) = parse_subcommand(args[0].as_str(), args[1].as_str()) {
            return Some(i);
        }
    }
    for i in 0..args.len()
        invariant
            model == args.deep_view(),
            args@.len() == 2 ==> subcommand(model[0], model[1]) is None,
            forall|k: int| 0 <= k < i ==> is_flag(#[trigger] model[k]),
    {
        let arg = args[i].as_str();
        if !text::same(arg, "--actions") && !text::same(arg, "--draft") && !text::same(
            arg,
            "--watched",
        ) {
            assert(!is_flag(model[i as int]));
            return None;
        }
    }
    Some(
        Invocation::List {
            actions: given(args, "--actions"),
            draft: given(args, "--draft"),
            watched: given(args, "--watched"),
        },
    )
}

// ---------------------------------------------------------------------------
// Start and end of the program
// ---------------------------------------------------------------------------

/// The command that succeeds if `gh` is installed.
pub fn version_command() -> (c: Command)
    ensures
        c.deep_view() == (process::CommandModel { program: "gh"@, args: seq!["--version"@] }),
{
    let c = process::command("gh", &["--version"]);
    assert(c.deep_view().args =~= seq!["--version"@]);
    c
}

/// Whether `gh` is installed.
pub open spec fn installed(status: Result<bool, Seq<char>>) -> Result<(), Seq<char>> {
    if status == Ok::<bool, Seq<char>>(true) {
        Ok(())
    } else {
        Err("`gh` is not installed. See https://cli.github.com/"@)
    }
}

/// Whether `gh` is authenticated.
pub open spec fn authenticated(status: Result<bool, Seq<char>>) -> Result<(), Seq<char>> {
    if status == Ok::<bool, Seq<char>>(true) {
        Ok(())
    } else {
        Err("`gh` is not authenticated. Run:\n\n    gh auth login\n"@)
    }
}

/// What to tell the user at the end.
pub open spec fn closing(result: Result<(), Seq<char>>) -> Option<process::MessageModel> {
    match result {
        Ok(()) => None,
        Err(e) => Some(process::MessageModel::Warn("error: "@ + e)),
    }
}

/// Whether `gh` is installed, once `version_command` was run.
pub fn gh_installed(status: Result<bool, String>) -> (r: Result<(), String>)
    ensures
        text::outcome(r) == if text::outcome(status) == Ok::<bool, Seq<char>>(true) {
            Ok(())
        } else {
            Err("`gh` is not installed. See https://cli.github.com/"@)
        },
        text::outcome(r) == installed(text::outcome(status)),
{
    if process::succeeded(&status) {
        Ok(())
    } else {
        Err("`gh` is not installed. See https://cli.github.com/".to_owned())
    }
}

/// The command that succeeds if `gh` is authenticated.
pub fn auth_command() -> (c: Command)
    ensures
        c.deep_view() == (process::CommandModel { program: "gh"@, args: seq!["auth"@, "status"@] }),
{
    let c = process::command("gh", &["auth", "status"]);
    assert(c.deep_view().args =~= seq!["auth"@, "status"@]);
    c
}

/// Whether `gh` is authenticated, once `auth_command` was run.
pub fn gh_authenticated(status: Result<bool, String>) -> (r: Result<(), String>)
    ensures
        text::outcome(r) == if text::outcome(status) == Ok::<bool, Seq<char>>(true) {
            Ok(())
        } else {
            Err("`gh` is not authenticated. Run:\n\n    gh auth login\n"@)
        },
        text::outcome(r) == authenticated(text::outcome(status)),
{
    if process::succeeded(&status) {
        Ok(())
    } else {
        Err("`gh` is not authenticated. Run:\n\n    gh auth login\n".to_owned())
    }
}

/// What to tell the user at the end about the result of the program, if anything.
pub fn closing_message(result: Result<(), String>) -> (m: Option<Message>)
    ensures
        m.deep_view() == match text::outcome(result) {
            Ok(()) => None,
            Err(e) => Some(process::MessageModel::Warn("error: "@ + e)),
        },
        m.deep_view() == closing(text::outcome(result)),
{
    match result {
        Ok(()) => None,
        Err(e) => Some(Message::Warn(text::join2("error: ", e.as_str()))),
    }
}

// ---------------------------------------------------------------------------
// Listing
// ---------------------------------------------------------------------------

/// The command that asks for the watched repositories, which is run only if they are asked for.
pub open spec fn watched_question(with_watched: bool) -> Option<process::CommandModel> {
    if with_watched {
        Some(query::subscriptions_args())
    } else {
        None
    }
}

/// The command that asks for the watched repositories, if they are asked for. What it prints goes
/// through `query::watched_repos` to `list_command`.
pub fn watched_request(with_watched: bool) -> (c: Option<Command>)
    ensures
        c is Some <==> with_watched,
        c.deep_view() == watched_question(with_watched),
{
    if with_watched {
        Some(query::subscriptions_command())
    } else {
        None
    }
}

/// The question that lists the open pull requests at `now`. Without `with_watched`, what is known
/// of watched repositories plays no part.
pub open spec fn list_question(
    with_checks: bool,
    with_watched: bool,
    watched: Result<Seq<Seq<char>>, Seq<char>>,
    now: time::Moment,
) -> Result<process::CommandModel, Seq<char>> {
    match watched {
        Err(e) if with_watched => Err(e),
        _ => {
            let repos = if with_watched {
                watched->Ok_0
            } else {
                seq![]
            };
            Ok(
                query::graphql(
                    query::open_prs_query(with_checks, query::watched_text(repos, now)),
                    seq![],
                ),
            )
        },
    }
}

/// The command that lists the open pull requests at `now`, with their checks or without, and with
/// those of watched repositories or without. `watched` are the repositories that
/// `watched_request` found, or the reason why they are not known.
pub fn list_command(
    with_checks: bool,
    with_watched: bool,
    watched: Result<Vec<String>, String>,
    now: Timestamp,
) -> (c: Result<Command, String>)
    requires
        with_watched && watched is Ok && watched->Ok_0@.len() > 0 ==> query::can_search(
            now.deep_view(),
        ),
    ensures
        text::outcome(c) == list_question(
            with_checks,
            with_watched,
            text::outcome(watched),
            now.deep_view(),
        ),
{
    let repos: Vec<String> = if with_watched {
        match watched {
            Ok(repos) => repos,
            Err(e) => {
                return Err(e);
            },
        }
    } else {
        Vec::new()
    };
    assert(!with_watched ==> repos.deep_view() =~= seq![]);
    let part = query::watched_part(repos.as_slice(), now);
    Ok(query::list_open_prs(with_checks, part.as_str()))
}

/// Whether `shown` is the list of the pull requests that a response reports: those that are not
/// hidden at `now`, the most recently updated first, as a table. Where those of others are listed
/// too, it names the authors.
pub open spec fn lists(
    response: Response,
    now: time::Moment,
    show_drafts: bool,
    with_watched: bool,
    shown: Seq<char>,
) -> bool {
    exists|sorted: Seq<pull_request::PullRequestModel>|
        {
            let kept = sorted.filter(pull_request::listed(now, show_drafts));
            &&& #[trigger] pull_request::sorts(pull_request::reported(response), sorted)
            &&& shown == table::table(kept, table::ages_of(kept, now), with_watched)
        }
}

/// The list of the pull requests that `response` reports, as text. `response` is what `gh`
/// printed, decoded, or the reason why it could not be decoded.
pub fn list(
    response: Result<Response, String>,
    now: Timestamp,
    show_drafts: bool,
    with_watched: bool,
) -> (shown: Result<String, String>)
    ensures
        match response {
            Ok(r) => shown matches Ok(s) && lists(
                r,
                now.deep_view(),
                show_drafts,
                with_watched,
                s@,
            ),
            Err(e) => shown matches Err(message) && message@ == "failed to parse gh output: "@ + e@,
        },
{
    match pull_request::parse_prs(response) {
        Ok(prs) => {
            let ghost sorted = prs.deep_view();
            let prs = pull_request::filter_prs(prs, now, show_drafts);
            assert(response is Ok ==> pull_request::sorts(
                pull_request::reported(response->Ok_0),
                sorted,
            ));
            Ok(table::format_table(prs.as_slice(), now, with_watched))
        },
        Err(e) => Err(e),
    }
}

// ---------------------------------------------------------------------------
// Laws
// ---------------------------------------------------------------------------

/// Neither the order of the flags nor how often one is given matters.
pub proof fn law_flags_are_a_set(a: Seq<Seq<char>>, b: Seq<Seq<char>>)
    requires
        only_flags(a),
        only_flags(b),
        forall|flag: Seq<char>| a.contains(flag) <==> b.contains(flag),
    ensures
        invocation(a) is Some,
        invocation(a) == invocation(b),
{
    lemma_flags_are_no_subcommand(a);
    lemma_flags_are_no_subcommand(b);
}

/// No flag is the name of a subcommand.
proof fn lemma_flags_are_no_subcommand(args: Seq<Seq<char>>)
    requires
        only_flags(args),
    ensures
        args.len() == 2 ==> subcommand(args[0], args[1]) is None,
{
    reveal_strlit("--actions");
    reveal_strlit("--draft");
    reveal_strlit("--watched");
    reveal_strlit("merge");
    reveal_strlit("rebase");
    reveal_strlit("wait");
    reveal_strlit("rerun");
    reveal_strlit("pr");
    if args.len() == 2 {
        assert(is_flag(args[0]));
        assert(args[0].len() >= 7);
    }
}

/// Watched repositories are asked for exactly with `--watched`; if they are not known then,
/// nothing is listed; and they are searched exactly if there are some.
pub proof fn law_watched_repos_are_listed_if_asked_for(
    with_checks: bool,
    with_watched: bool,
    watched: Result<Seq<Seq<char>>, Seq<char>>,
    now: time::Moment,
)
    ensures
        watched_question(with_watched) is Some <==> with_watched,
        list_question(with_checks, with_watched, watched, now) == match watched {
            Err(e) if with_watched => Err(e),
            Ok(repos) if with_watched && repos.len() > 0 => Ok(
                query::graphql(
                    query::open_prs_query(
                        with_checks,
                        query::search_text(query::watched_since(now), repos),
                    ),
                    seq![],
                ),
            ),
            _ => Ok(query::graphql(query::open_prs_query(with_checks, seq![]), seq![])),
        },
{
}

/// The list names the authors exactly with `--watched`, whether there are watched repositories or
/// not: its first line has the AUTHOR head.
pub proof fn law_authors_are_listed_with_watched(
    response: Response,
    now: time::Moment,
    show_drafts: bool,
    with_watched: bool,
    shown: Seq<char>,
)
    requires
        lists(response, now, show_drafts, with_watched, shown),
    ensures
        text::occurs(text::split(shown, '\n')[0], "AUTHOR"@) <==> with_watched,
{
    let sorted = choose|sorted: Seq<pull_request::PullRequestModel>|
        {
            let kept = sorted.filter(pull_request::listed(now, show_drafts));
            &&& #[trigger] pull_request::sorts(pull_request::reported(response), sorted)
            &&& shown == table::table(kept, table::ages_of(kept, now), with_watched)
        };
    let kept = sorted.filter(pull_request::listed(now, show_drafts));
    table::law_authors_are_shown_if_asked_for(kept, table::ages_of(kept, now), with_watched);
}

/// A response is listed in one way only.
pub proof fn law_the_list_is_determined(
    response: Response,
    now: time::Moment,
    show_drafts: bool,
    with_watched: bool,
    a: Seq<char>,
    b: Seq<char>,
)
    requires
        lists(response, now, show_drafts, with_watched, a),
        lists(response, now, show_drafts, with_watched, b),
    ensures
        a == b,
{
    let given = pull_request::reported(response);
    assert forall|x: Seq<pull_request::PullRequestModel>, y: Seq<pull_request::PullRequestModel>|
        #![trigger pull_request::sorts(given, x), pull_request::sorts(given, y)]
        pull_request::sorts(given, x) && pull_request::sorts(given, y) implies x == y by {
        pull_request::law_sorting_is_determined(given, x, y);
    }
}

/// The subcommands have different names.
proof fn lemma_subcommands()
    ensures
        "merge"@ != "rebase"@,
        "merge"@ != "wait"@,
        "merge"@ != "rerun"@,
        "merge"@ != "pr"@,
        "rebase"@ != "wait"@,
        "rebase"@ != "rerun"@,
        "rebase"@ != "pr"@,
        "wait"@ != "rerun"@,
        "wait"@ != "pr"@,
        "rerun"@ != "pr"@,
{
    reveal_strlit("merge");
    reveal_strlit("rebase");
    reveal_strlit("wait");
    reveal_strlit("rerun");
    reveal_strlit("pr");
    assert("merge"@.len() == 5 && "rebase"@.len() == 6 && "wait"@.len() == 4);
    assert("rerun"@.len() == 5 && "pr"@.len() == 2);
    assert("merge"@[0] == 'm' && "rerun"@[0] == 'r');
}

/// A subcommand and its argument ask for what the subcommand is called, whatever the argument is.
pub proof fn law_subcommands_do_what_they_say(args: Seq<Seq<char>>, argument: Seq<char>)
    ensures
        invocation(args) == Some(InvocationModel::Merge(argument)) <==> args == seq![
            "merge"@,
            argument,
        ],
        invocation(args) == Some(InvocationModel::Rebase(argument)) <==> args == seq![
            "rebase"@,
            argument,
        ],
        invocation(args) == Some(InvocationModel::Wait(argument)) <==> args == seq![
            "wait"@,
            argument,
        ],
        invocation(args) == Some(InvocationModel::Rerun(argument)) <==> args == seq![
            "rerun"@,
            argument,
        ],
        invocation(args) == Some(InvocationModel::Pr(argument)) <==> args == seq!["pr"@, argument],
{
    lemma_subcommands();
    if args.len() == 2 {
        assert(args =~= seq![args[0], args[1]]);
    }
}

/// Pull requests are listed exactly if all arguments are flags, also if there are none; and each
/// flag asks for one thing, wherever it stands.
pub proof fn law_flags_say_what_is_listed(args: Seq<Seq<char>>)
    ensures
        invocation(args) is Some && invocation(args)->0 is List <==> forall|i: int|
            0 <= i < args.len() ==> #[trigger] args[i] == "--actions"@ || args[i] == "--draft"@
                || args[i] == "--watched"@,
        invocation(args) matches Some(InvocationModel::List { actions, draft, watched }) ==> {
            &&& actions <==> args.contains("--actions"@)
            &&& draft <==> args.contains("--draft"@)
            &&& watched <==> args.contains("--watched"@)
        },
        invocation(seq![]) == Some(
            InvocationModel::List { actions: false, draft: false, watched: false },
        ),
{
    if forall|i: int|
        0 <= i < args.len() ==> #[trigger] args[i] == "--actions"@ || args[i] == "--draft"@
            || args[i] == "--watched"@ {
        assert(only_flags(args));
        lemma_flags_are_no_subcommand(args);
    }
    if only_flags(args) {
        assert forall|i: int| 0 <= i < args.len() implies #[trigger] args[i] == "--actions"@
            || args[i] == "--draft"@ || args[i] == "--watched"@ by {
            assert(is_flag(args[i]));
        }
    }
    let none = Seq::<Seq<char>>::empty();
    assert(only_flags(none));
    assert(!none.contains("--actions"@) && !none.contains("--draft"@) && !none.contains(
        "--watched"@,
    ));
}

/// Listing needs `gh` and a login, whatever went wrong with either; and only a failure is told at
/// the end, as an error.
pub proof fn law_gh_has_to_be_there(status: Result<bool, Seq<char>>, result: Result<(), Seq<char>>)
    ensures
        installed(status) is Ok <==> status == Ok::<bool, Seq<char>>(true),
        installed(status) matches Err(e) ==> e
            == "`gh` is not installed. See https://cli.github.com/"@,
        authenticated(status) is Ok <==> status == Ok::<bool, Seq<char>>(true),
        authenticated(status) matches Err(e) ==> e
            == "`gh` is not authenticated. Run:\n\n    gh auth login\n"@,
        closing(result) is None <==> result is Ok,
        result matches Err(e) ==> closing(result) == Some(
            process::MessageModel::Warn("error: "@ + e),
        ),
{
}

/// What is listed of a response is the table of all that it reports and that is not hidden, sorted,
/// with the ages that they have now.
pub proof fn law_all_that_is_not_hidden_is_listed(
    response: Response,
    sorted: Seq<pull_request::PullRequestModel>,
    kept: spec_fn(pull_request::PullRequestModel) -> bool,
    now: time::Moment,
    show_drafts: bool,
    with_watched: bool,
    shown: Seq<char>,
)
    requires
        pull_request::sorts(pull_request::reported(response), sorted),
        forall|pr: pull_request::PullRequestModel| #[trigger]
            kept(pr) <==> !pull_request::hidden(
                pr,
                time::moment_in(pr.updated_at),
                now,
                show_drafts,
            ),
    ensures
        lists(response, now, show_drafts, with_watched, shown) <==> shown == table::table(
            sorted.filter(kept),
            table::ages_of(sorted.filter(kept), now),
            with_watched,
        ),
{
    assert forall|pr: pull_request::PullRequestModel| #[trigger] kept(pr)
        == pull_request::listed(now, show_drafts)(pr) by {}
    assert(kept =~= pull_request::listed(now, show_drafts));
    let given = pull_request::reported(response);
    assert forall|x: Seq<pull_request::PullRequestModel>| #[trigger]
        pull_request::sorts(given, x) implies x == sorted by {
        pull_request::law_sorting_is_determined(given, x, sorted);
    }
}

} // verus!
