//! The table of pull requests.

use vstd::prelude::*;
use vstd::string::*;

use crate::ci;
use crate::ci::Check;
use crate::pull_request;
use crate::pull_request::PullRequest;
use crate::text;
use crate::time;
use crate::time::Timestamp;

verus! {

// ---------------------------------------------------------------------------
// Model
// ---------------------------------------------------------------------------

/// `s` with as many spaces behind it as make it `width` characters long, if it is shorter.
pub open spec fn pad(s: Seq<char>, width: nat) -> Seq<char> {
    if s.len() < width {
        s + Seq::new((width - s.len()) as nat, |i: int| ' ')
    } else {
        s
    }
}

/// The larger of two numbers.
pub open spec fn larger(a: nat, b: nat) -> nat {
    if a < b {
        b
    } else {
        a
    }
}

/// The column heads.
pub open spec fn heads(show_author: bool) -> Seq<Seq<char>> {
    if show_author {
        seq!["REPO"@, "AUTHOR"@, "TITLE"@, "URL"@, "LAST UPDATED"@]
    } else {
        seq!["REPO"@, "TITLE"@, "URL"@, "LAST UPDATED"@]
    }
}

/// A pull request's title, with a mark if it is a draft.
pub open spec fn title_cell(pr: pull_request::PullRequestModel) -> Seq<char> {
    if pr.is_draft {
        pr.title + " (draft)"@
    } else {
        pr.title
    }
}

/// A pull request's cells, the icon not counted. `age` is how long ago it was updated.
pub open spec fn cells(
    pr: pull_request::PullRequestModel,
    age: Seq<char>,
    show_author: bool,
) -> Seq<Seq<char>> {
    if show_author {
        seq![pr.repo, pr.author, title_cell(pr), pr.url, age]
    } else {
        seq![pr.repo, title_cell(pr), pr.url, age]
    }
}

/// The column heads and the cells of each pull request.
pub open spec fn rows(
    prs: Seq<pull_request::PullRequestModel>,
    ages: Seq<Seq<char>>,
    show_author: bool,
) -> Seq<Seq<Seq<char>>> {
    seq![heads(show_author)] + Seq::new(prs.len(), |i: int| cells(prs[i], ages[i], show_author))
}

/// The width of a column: that of its widest cell, in characters rather than bytes, so that
/// non-ASCII titles stay aligned.
pub open spec fn column_width(rows: Seq<Seq<Seq<char>>>, column: int) -> nat
    decreases rows.len(),
{
    if rows.len() == 0 {
        0
    } else {
        larger(column_width(rows.drop_last(), column), rows.last()[column].len())
    }
}

/// The first `n` cells of a row, each as wide as its column and after two spaces.
pub open spec fn padded_cells(row: Seq<Seq<char>>, rows: Seq<Seq<Seq<char>>>, n: int) -> Seq<char>
    decreases n,
{
    if n <= 0 {
        seq![]
    } else {
        padded_cells(row, rows, n - 1) + "  "@ + pad(row[n - 1], column_width(rows, n - 1))
    }
}

/// A row as a line: an icon and the cells, without the spaces at the end. The CI column is always a
/// single emoji (2 terminal columns, same as the "CI" head), so it has no width to be padded to.
pub open spec fn row_line(
    icon: Seq<char>,
    row: Seq<Seq<char>>,
    rows: Seq<Seq<Seq<char>>>,
) -> Seq<char> {
    text::trim_end(icon + padded_cells(row, rows, row.len() as int))
}

/// The width of the widest name among the first `n` checks.
pub open spec fn name_width(checks: Seq<ci::CheckModel>, n: int) -> nat
    decreases n,
{
    if n <= 0 {
        0
    } else {
        larger(name_width(checks, n - 1), checks[n - 1].name.len())
    }
}

/// A check's line: its icon, its name padded to `width` and its URL, under the REPO column.
pub open spec fn check_line(check: ci::CheckModel, width: nat) -> Seq<char> {
    text::trim_end(
        "    "@ + check.ci.icon_text() + " "@ + pad(check.name, width) + "  "@ + check.url,
    )
}

/// The lines of the first `n` checks.
pub open spec fn check_lines(checks: Seq<ci::CheckModel>, n: int) -> Seq<Seq<char>>
    decreases n,
{
    if n <= 0 {
        seq![]
    } else {
        check_lines(checks, n - 1).push(
            check_line(checks[n - 1], name_width(checks, checks.len() as int)),
        )
    }
}

/// The lines of the table down to the first `n` pull requests: the column heads, and for each pull
/// request a row of its own and the lines of its checks.
pub open spec fn table_lines(
    prs: Seq<pull_request::PullRequestModel>,
    ages: Seq<Seq<char>>,
    show_author: bool,
    n: int,
) -> Seq<Seq<char>>
    decreases n,
{
    let all = rows(prs, ages, show_author);
    if n <= 0 {
        seq![row_line("CI"@, all[0], all)]
    } else {
        table_lines(prs, ages, show_author, n - 1).push(
            row_line(prs[n - 1].ci.icon_text(), all[n], all),
        ) + check_lines(prs[n - 1].checks, prs[n - 1].checks.len() as int)
    }
}

/// The table of `prs`, which were updated `ages` ago.
pub open spec fn table(
    prs: Seq<pull_request::PullRequestModel>,
    ages: Seq<Seq<char>>,
    show_author: bool,
) -> Seq<char> {
    text::one_per_line(table_lines(prs, ages, show_author, prs.len() as int))
}

/// How long before `now` each pull request was updated.
pub open spec fn ages_of(prs: Seq<pull_request::PullRequestModel>, now: time::Moment) -> Seq<
    Seq<char>,
> {
    Seq::new(
        prs.len(),
        |i: int| time::age_text(time::moment_in(prs[i].updated_at), prs[i].updated_at, now),
    )
}

// ---------------------------------------------------------------------------
// Writing
// ---------------------------------------------------------------------------

/// Writes `s` behind `out`.
fn push_text(out: &mut Vec<char>, s: &str)
    ensures
        final(out)@ == old(out)@ + s@,
{
    let mut chars = text::to_chars(s);
    out.append(&mut chars);
}

/// Writes `s` behind `out`, padded to `width`.
fn push_padded(out: &mut Vec<char>, s: &str, width: usize)
    ensures
        final(out)@ == old(out)@ + pad(s@, width as nat),
{
    let ghost start = out@;
    push_text(out, s);
    let mut n: usize = s.unicode_len();
    let ghost len = n as nat;
    while n < width
        invariant
            len == s@.len(),
            len <= n,
            n <= width || n == len,
            out@ == start + pad(s@, n as nat),
        decreases width - n,
    {
        out.push(' ');
        n = n + 1;
        assert(out@ =~= start + pad(s@, n as nat));
    }
    assert(pad(s@, n as nat) =~= pad(s@, width as nat));
}

/// Writes `line` behind `out`, without the white space at its end, and a newline.
fn push_line(out: &mut Vec<char>, line: Vec<char>)
    ensures
        final(out)@ == old(out)@ + text::trim_end(line@) + seq!['\n'],
{
    let mut line = line;
    let n = text::trimmed_len(line.as_slice());
    line.truncate(n);
    out.append(&mut line);
    out.push('\n');
}

/// Writes a row behind `out`.
fn push_row(
    out: &mut Vec<char>,
    icon: &str,
    row: &Vec<String>,
    widths: &Vec<usize>,
    all: Ghost<Seq<Seq<Seq<char>>>>,
)
    requires
        widths@.len() == row@.len(),
        forall|c: int| 0 <= c < widths@.len() ==> #[trigger] widths@[c] == column_width(all@, c),
    ensures
        final(out)@ == old(out)@ + row_line(icon@, row.deep_view(), all@) + seq!['\n'],
{
    let mut line = text::to_chars(icon);
    assert(line@ =~= icon@ + padded_cells(row.deep_view(), all@, 0));
    for c in 0..row.len()
        invariant
            widths@.len() == row@.len(),
            forall|k: int|
                0 <= k < widths@.len() ==> #[trigger] widths@[k] == column_width(all@, k),
            line@ == icon@ + padded_cells(row.deep_view(), all@, c as int),
    {
        push_text(&mut line, "  ");
        push_padded(&mut line, row[c].as_str(), widths[c]);
        assert(widths@[c as int] == column_width(all@, c as int));
        assert(line@ =~= icon@ + padded_cells(row.deep_view(), all@, c + 1));
    }
    // Last column is padded too; don't leave trailing spaces.
    push_line(out, line);
}

/// Writes the lines of `checks` behind `out`, which holds `above`.
fn push_checks(out: &mut Vec<char>, checks: &Vec<Check>, above: Ghost<Seq<Seq<char>>>)
    requires
        old(out)@ == text::one_per_line(above@),
    ensures
        final(out)@ == text::one_per_line(
            above@ + check_lines(checks.deep_view(), checks@.len() as int),
        ),
{
    let ghost model = checks.deep_view();
    let mut width: usize = 0;
    for i in 0..checks.len()
        invariant
            model == checks.deep_view(),
            width == name_width(model, i as int),
    {
        let len = checks[i].name.as_str().unicode_len();
        if width < len {
            width = len;
        }
    }
    assert(above@ + check_lines(model, 0) =~= above@);
    for i in 0..checks.len()
        invariant
            model == checks.deep_view(),
            width == name_width(model, model.len() as int),
            out@ == text::one_per_line(above@ + check_lines(model, i as int)),
    {
        let mut line: Vec<char> = Vec::new();
        push_text(&mut line, "    ");
        push_text(&mut line, checks[i].ci.icon());
        push_text(&mut line, " ");
        push_padded(&mut line, checks[i].name.as_str(), width);
        push_text(&mut line, "  ");
        push_text(&mut line, checks[i].url.as_str());
        assert(line@ =~= "    "@ + model[i as int].ci.icon_text() + " "@ + pad(
            model[i as int].name,
            width as nat,
        ) + "  "@ + model[i as int].url);
        push_line(out, line);
        proof {
            let written = check_line(model[i as int], width as nat);
            text::lemma_one_more_line(above@ + check_lines(model, i as int), written);
            assert((above@ + check_lines(model, i as int)).push(written) =~= above@ + check_lines(
                model,
                i + 1,
            ));
        }
    }
}

/// The column heads.
fn head_row(show_author: bool) -> (row: Vec<String>)
    ensures
        row.deep_view() == heads(show_author),
{
    let mut row: Vec<String> = Vec::new();
    row.push("REPO".to_owned());
    if show_author {
        row.push("AUTHOR".to_owned());
    }
    row.push("TITLE".to_owned());
    row.push("URL".to_owned());
    row.push("LAST UPDATED".to_owned());
    assert(row.deep_view() =~= heads(show_author));
    row
}

/// A pull request's cells.
fn pr_row(pr: &PullRequest, age: &str, show_author: bool) -> (row: Vec<String>)
    ensures
        row.deep_view() == cells(pr.deep_view(), age@, show_author),
{
    let title = if pr.is_draft {
        text::join2(pr.title.as_str(), " (draft)")
    } else {
        pr.title.clone()
    };
    let mut row: Vec<String> = Vec::new();
    row.push(pr.repo.clone());
    if show_author {
        row.push(pr.author.clone());
    }
    row.push(title);
    row.push(pr.url.clone());
    row.push(age.to_owned());
    assert(row.deep_view() =~= cells(pr.deep_view(), age@, show_author));
    row
}

/// The widths of the columns of `list`.
fn widths_of(list: &Vec<Vec<String>>, columns: usize) -> (widths: Vec<usize>)
    requires
        forall|r: int| 0 <= r < list@.len() ==> (#[trigger] list@[r])@.len() == columns,
    ensures
        widths@.len() == columns,
        forall|c: int|
            0 <= c < columns ==> #[trigger] widths@[c] == column_width(list.deep_view(), c),
{
    let ghost all = list.deep_view();
    let mut widths: Vec<usize> = Vec::new();
    for c in 0..columns
        invariant
            all == list.deep_view(),
            forall|r: int| 0 <= r < list@.len() ==> (#[trigger] list@[r])@.len() == columns,
            widths@.len() == c,
            forall|k: int| 0 <= k < c ==> #[trigger] widths@[k] == column_width(all, k),
    {
        let mut width: usize = 0;
        for r in 0..list.len()
            invariant
                c < columns,
                all == list.deep_view(),
                forall|q: int| 0 <= q < list@.len() ==> (#[trigger] list@[q])@.len() == columns,
                width == column_width(all.take(r as int), c as int),
        {
            assert(list@[r as int]@.len() == columns);
            let len = list[r][c].as_str().unicode_len();
            assert(all.take(r + 1).drop_last() =~= all.take(r as int));
            assert(all.take(r + 1).last() == list@[r as int].deep_view());
            if width < len {
                width = len;
            }
        }
        assert(all.take(all.len() as int) =~= all);
        widths.push(width);
    }
    widths
}

/// Lays out the table of `prs`, which were updated `ages` ago.
pub fn layout_table(prs: &[PullRequest], ages: &[String], show_author: bool) -> (s: String)
    requires
        ages@.len() == prs@.len(),
    ensures
        s@ == table(prs.deep_view(), ages.deep_view(), show_author),
{
    let ghost model = prs.deep_view();
    let ghost given = ages.deep_view();
    let ghost all = rows(model, given, show_author);
    let mut list: Vec<Vec<String>> = Vec::new();
    let columns: usize = if show_author {
        5
    } else {
        4
    };
    let head = head_row(show_author);
    assert(head@.len() == head.deep_view().len());
    list.push(head);
    for i in 0..prs.len()
        invariant
            ages@.len() == prs@.len(),
            model == prs.deep_view(),
            given == ages.deep_view(),
            all == rows(model, given, show_author),
            columns == if show_author {
                5int
            } else {
                4
            },
            list@.len() == i + 1,
            forall|r: int| 0 <= r <= i ==> (#[trigger] list@[r]).deep_view() == all[r],
            forall|r: int| 0 <= r <= i ==> (#[trigger] list@[r])@.len() == columns,
    {
        let row = pr_row(&prs[i], ages[i].as_str(), show_author);
        assert(all[i + 1] == cells(model[i as int], given[i as int], show_author));
        assert(row@.len() == row.deep_view().len());
        list.push(row);
    }
    assert(list.deep_view() =~= all);
    let widths = widths_of(&list, columns);
    let mut out: Vec<char> = Vec::new();
    push_row(&mut out, "CI", &list[0], &widths, Ghost(all));
    proof {
        let top = table_lines(model, given, show_author, 0);
        text::lemma_one_more_line(seq![], top[0]);
        assert(seq![].push(top[0]) =~= top);
        assert(out@ =~= text::one_per_line(top));
    }
    for i in 0..prs.len()
        invariant
            ages@.len() == prs@.len(),
            model == prs.deep_view(),
            all == rows(model, given, show_author),
            list@.len() == prs@.len() + 1,
            forall|r: int| 0 <= r < list@.len() ==> (#[trigger] list@[r]).deep_view() == all[r],
            forall|r: int| 0 <= r < list@.len() ==> (#[trigger] list@[r])@.len() == columns,
            widths@.len() == columns,
            forall|c: int|
                0 <= c < widths@.len() ==> #[trigger] widths@[c] == column_width(all, c),
            out@ == text::one_per_line(table_lines(model, given, show_author, i as int)),
    {
        assert(list@[i + 1]@.len() == columns);
        push_row(&mut out, prs[i].ci.icon(), &list[i + 1], &widths, Ghost(all));
        let ghost line = row_line(model[i as int].ci.icon_text(), all[i + 1], all);
        let ghost above = table_lines(model, given, show_author, i as int);
        proof {
            text::lemma_one_more_line(above, line);
        }
        push_checks(&mut out, &prs[i].checks, Ghost(above.push(line)));
        assert(model[i as int] == prs@[i as int].deep_view());
    }
    text::to_text(out.as_slice())
}

/// The table of `prs` at `now`.
pub fn format_table(prs: &[PullRequest], now: Timestamp, show_author: bool) -> (s: String)
    ensures
        s@ == table(prs.deep_view(), ages_of(prs.deep_view(), now.deep_view()), show_author),
{
    let ghost model = prs.deep_view();
    let ghost expected = ages_of(model, now.deep_view());
    let mut ages: Vec<String> = Vec::new();
    for i in 0..prs.len()
        invariant
            model == prs.deep_view(),
            expected == ages_of(model, now.deep_view()),
            ages@.len() == i,
            forall|k: int| 0 <= k < i ==> (#[trigger] ages@[k])@ == expected[k],
    {
        ages.push(time::relative_time(prs[i].updated_at.as_str(), now));
    }
    assert(ages.deep_view() =~= expected);
    layout_table(prs, ages.as_slice(), show_author)
}

// ---------------------------------------------------------------------------
// Laws
// ---------------------------------------------------------------------------

/// No cell is wider than its column.
pub proof fn law_columns_fit(rows: Seq<Seq<Seq<char>>>, r: int, column: int)
    requires
        0 <= r < rows.len(),
    ensures
        rows[r][column].len() <= column_width(rows, column),
    decreases rows.len(),
{
    if r < rows.len() - 1 {
        law_columns_fit(rows.drop_last(), r, column);
    }
}

/// Where the cell after the first `n` columns begins, counted from the end of the icon.
pub open spec fn column_start(rows: Seq<Seq<Seq<char>>>, n: int) -> int
    decreases n,
{
    if n <= 0 {
        0
    } else {
        column_start(rows, n - 1) + 2 + column_width(rows, n - 1)
    }
}

/// Columns are aligned: the cells of a column begin at the same place in every row.
pub proof fn law_columns_align(rows: Seq<Seq<Seq<char>>>, r: int, n: int)
    requires
        0 <= r < rows.len(),
        0 <= n,
    ensures
        padded_cells(rows[r], rows, n).len() == column_start(rows, n),
    decreases n,
{
    reveal_strlit("  ");
    if n > 0 {
        law_columns_align(rows, r, n - 1);
        law_columns_fit(rows, r, n - 1);
    }
}

/// A trimmed text is empty or ends in something other than white space, and is a beginning of the
/// text.
proof fn lemma_trim_end(s: Seq<char>)
    ensures
        text::trim_end(s).len() == 0 || !text::is_white_space(text::trim_end(s).last()),
        text::trim_end(s).is_prefix_of(s),
    decreases s.len(),
{
    if s.len() > 0 && text::is_white_space(s.last()) {
        lemma_trim_end(s.drop_last());
        let t = text::trim_end(s);
        assert(s.drop_last().take(t.len() as int) =~= s.take(t.len() as int));
    } else {
        assert(s.take(s.len() as int) =~= s);
    }
}

/// A row has no white space at its end.
pub proof fn law_rows_have_no_trailing_space(
    icon: Seq<char>,
    row: Seq<Seq<char>>,
    rows: Seq<Seq<Seq<char>>>,
)
    ensures
        row_line(icon, row, rows).len() > 0 ==> !text::is_white_space(
            row_line(icon, row, rows).last(),
        ),
{
    lemma_trim_end(icon + padded_cells(row, rows, row.len() as int));
}

/// A check's line has no white space at its end.
pub proof fn law_check_lines_have_no_trailing_space(check: ci::CheckModel, width: nat)
    ensures
        check_line(check, width).len() > 0 ==> !text::is_white_space(
            check_line(check, width).last(),
        ),
{
    lemma_trim_end(
        "    "@ + check.ci.icon_text() + " "@ + pad(check.name, width) + "  "@ + check.url,
    );
}

/// How many checks the first `n` pull requests have.
pub open spec fn check_count(prs: Seq<pull_request::PullRequestModel>, n: int) -> nat
    decreases n,
{
    if n <= 0 {
        0
    } else {
        check_count(prs, n - 1) + prs[n - 1].checks.len()
    }
}

/// Each check has a line.
proof fn lemma_check_lines(checks: Seq<ci::CheckModel>, n: int)
    requires
        0 <= n,
    ensures
        check_lines(checks, n).len() == n,
        forall|i: int|
            0 <= i < n ==> #[trigger] check_lines(checks, n)[i] == check_line(
                checks[i],
                name_width(checks, checks.len() as int),
            ),
    decreases n,
{
    if n > 0 {
        lemma_check_lines(checks, n - 1);
    }
}

/// The table has the column heads, one row for each pull request, whatever is in it, and one line
/// for each check.
pub proof fn law_one_row_for_each_pull_request(
    prs: Seq<pull_request::PullRequestModel>,
    ages: Seq<Seq<char>>,
    show_author: bool,
    n: int,
)
    requires
        0 <= n <= prs.len(),
    ensures
        table_lines(prs, ages, show_author, n).len() == 1 + n + check_count(prs, n),
    decreases n,
{
    if n > 0 {
        law_one_row_for_each_pull_request(prs, ages, show_author, n - 1);
        lemma_check_lines(prs[n - 1].checks, prs[n - 1].checks.len() as int);
    }
}

/// No line of the table has white space at its end.
proof fn lemma_table_lines_trimmed(
    prs: Seq<pull_request::PullRequestModel>,
    ages: Seq<Seq<char>>,
    show_author: bool,
    n: int,
)
    ensures
        forall|i: int|
            0 <= i < table_lines(prs, ages, show_author, n).len() && (#[trigger] table_lines(
                prs,
                ages,
                show_author,
                n,
            )[i]).len() > 0 ==> !text::is_white_space(
                table_lines(prs, ages, show_author, n)[i].last(),
            ),
    decreases n,
{
    let all = rows(prs, ages, show_author);
    let list = table_lines(prs, ages, show_author, n);
    if n <= 0 {
        law_rows_have_no_trailing_space("CI"@, all[0], all);
    } else {
        let pr = prs[n - 1];
        let above = table_lines(prs, ages, show_author, n - 1);
        let count = pr.checks.len() as int;
        lemma_table_lines_trimmed(prs, ages, show_author, n - 1);
        lemma_check_lines(pr.checks, count);
        law_rows_have_no_trailing_space(pr.ci.icon_text(), all[n], all);
        assert forall|i: int| 0 <= i < list.len() && (#[trigger] list[i]).len()
            > 0 implies !text::is_white_space(list[i].last()) by {
            if i < above.len() {
                assert(list[i] == above[i]);
            } else if i > above.len() {
                let k = i - above.len() - 1;
                let width = name_width(pr.checks, count);
                assert(list[i] == check_lines(pr.checks, count)[k]);
                law_check_lines_have_no_trailing_space(pr.checks[k], width);
            }
        }
    }
}

/// What is printed has exactly the lines of the table, if no line has a newline in it.
pub proof fn law_the_table_has_its_lines(
    prs: Seq<pull_request::PullRequestModel>,
    ages: Seq<Seq<char>>,
    show_author: bool,
)
    requires
        forall|i: int|
            0 <= i < table_lines(prs, ages, show_author, prs.len() as int).len()
                ==> text::without(
                #[trigger] table_lines(prs, ages, show_author, prs.len() as int)[i],
                '\n',
            ),
    ensures
        text::lines(table(prs, ages, show_author)) == table_lines(
            prs,
            ages,
            show_author,
            prs.len() as int,
        ),
{
    let list = table_lines(prs, ages, show_author, prs.len() as int);
    lemma_table_lines_trimmed(prs, ages, show_author, prs.len() as int);
    assert forall|i: int| 0 <= i < list.len() implies text::fits_line(#[trigger] list[i]) by {
        assert(text::without(list[i], '\n'));
    }
    text::law_lines_are_read_back(list);
}

/// Cells without a character make a row without it.
proof fn lemma_padded_without(row: Seq<Seq<char>>, rows: Seq<Seq<Seq<char>>>, n: int, c: char)
    requires
        c != ' ',
        forall|k: int| 0 <= k < n ==> text::without(#[trigger] row[k], c),
    ensures
        text::without(padded_cells(row, rows, n), c),
    decreases n,
{
    reveal_strlit("  ");
    if n > 0 {
        lemma_padded_without(row, rows, n - 1, c);
        let before = padded_cells(row, rows, n - 1);
        let cell = pad(row[n - 1], column_width(rows, n - 1));
        assert(text::without(row[n - 1], c));
        assert(text::without(cell, c));
        assert(text::without(before + "  "@, c));
        assert(text::without(before + "  "@ + cell, c));
    }
}

/// A trimmed text has no character that the text does not have.
proof fn lemma_trimmed_without(s: Seq<char>, c: char)
    requires
        text::without(s, c),
    ensures
        text::without(text::trim_end(s), c),
{
    lemma_trim_end(s);
    let t = text::trim_end(s);
    assert forall|i: int| 0 <= i < t.len() implies t[i] != c by {
        assert(s.take(t.len() as int)[i] == s[i]);
    }
}

/// Cells, names and URLs without a newline make lines without one.
pub proof fn law_plain_cells_make_plain_lines(
    prs: Seq<pull_request::PullRequestModel>,
    ages: Seq<Seq<char>>,
    show_author: bool,
    n: int,
)
    requires
        0 <= n <= prs.len(),
        forall|r: int, k: int|
            0 <= r < n && 0 <= k < cells(prs[r], ages[r], show_author).len() ==> text::without(
                #[trigger] cells(prs[r], ages[r], show_author)[k],
                '\n',
            ),
        forall|r: int, k: int|
            0 <= r < n && 0 <= k < prs[r].checks.len() ==> text::without(
                (#[trigger] prs[r].checks[k]).name,
                '\n',
            ) && text::without(prs[r].checks[k].url, '\n'),
    ensures
        forall|i: int|
            0 <= i < table_lines(prs, ages, show_author, n).len() ==> text::without(
                #[trigger] table_lines(prs, ages, show_author, n)[i],
                '\n',
            ),
    decreases n,
{
    let all = rows(prs, ages, show_author);
    let list = table_lines(prs, ages, show_author, n);
    if n == 0 {
        lemma_head_is_one_line(prs, ages, show_author);
    } else {
        let pr = prs[n - 1];
        let row = cells(pr, ages[n - 1], show_author);
        let above = table_lines(prs, ages, show_author, n - 1);
        let count = pr.checks.len() as int;
        law_plain_cells_make_plain_lines(prs, ages, show_author, n - 1);
        lemma_check_lines(pr.checks, count);
        assert forall|k: int| 0 <= k < row.len() implies text::without(#[trigger] row[k], '\n') by {
            assert(row[k] == cells(prs[n - 1], ages[n - 1], show_author)[k]);
        }
        lemma_padded_without(row, all, row.len() as int, '\n');
        lemma_plain_icon(pr.ci);
        let padded = padded_cells(row, all, row.len() as int);
        assert(text::without(pr.ci.icon_text() + padded, '\n'));
        lemma_trimmed_without(pr.ci.icon_text() + padded, '\n');
        assert forall|i: int| 0 <= i < list.len() implies text::without(
            #[trigger] list[i],
            '\n',
        ) by {
            if i < above.len() {
                assert(list[i] == above[i]);
            } else if i == above.len() {
                assert(list[i] == row_line(pr.ci.icon_text(), row, all));
            } else {
                let k = i - above.len() - 1;
                assert(list[i] == check_lines(pr.checks, count)[k]);
                assert(prs[n - 1].checks[k] == pr.checks[k]);
                lemma_plain_check(pr.checks[k], name_width(pr.checks, count));
            }
        }
    }
}

/// No icon has a newline.
proof fn lemma_plain_icon(ci: ci::CiStatus)
    ensures
        text::without(ci.icon_text(), '\n'),
{
    reveal_strlit("🟢");
    reveal_strlit("🔴");
    reveal_strlit("🟡");
    reveal_strlit("  ");
}

/// A check without a newline makes a line without one.
proof fn lemma_plain_check(check: ci::CheckModel, width: nat)
    requires
        text::without(check.name, '\n'),
        text::without(check.url, '\n'),
    ensures
        text::without(check_line(check, width), '\n'),
{
    reveal_strlit("    ");
    reveal_strlit("  ");
    reveal_strlit(" ");
    lemma_plain_icon(check.ci);
    let name = pad(check.name, width);
    let start = "    "@ + check.ci.icon_text() + " "@;
    assert(text::without(name, '\n'));
    assert(text::without(start, '\n'));
    assert(text::without(start + name, '\n'));
    assert(text::without(start + name + "  "@, '\n'));
    assert(text::without(start + name + "  "@ + check.url, '\n'));
    lemma_trimmed_without(start + name + "  "@ + check.url, '\n');
}

/// Trimming keeps all down to a character that is no white space.
proof fn lemma_trim_end_keeps(s: Seq<char>, i: int)
    requires
        0 <= i < s.len(),
        !text::is_white_space(s[i]),
    ensures
        text::trim_end(s).len() > i,
    decreases s.len(),
{
    if text::is_white_space(s.last()) {
        lemma_trim_end_keeps(s.drop_last(), i);
    }
}

/// The first cells of a row are its beginning.
proof fn lemma_first_cells(row: Seq<Seq<char>>, rows: Seq<Seq<Seq<char>>>, n: int, m: int)
    requires
        n <= m,
    ensures
        padded_cells(row, rows, n).is_prefix_of(padded_cells(row, rows, m)),
    decreases m - n,
{
    let start = padded_cells(row, rows, n);
    let all = padded_cells(row, rows, m);
    if n == m {
        assert(all.take(start.len() as int) =~= start);
    } else {
        let front = padded_cells(row, rows, m - 1);
        lemma_first_cells(row, rows, n, m - 1);
        if m > 0 {
            let cell = pad(row[m - 1], column_width(rows, m - 1));
            assert(all =~= front + ("  "@ + cell));
            assert(all.take(start.len() as int) =~= front.take(start.len() as int));
        }
    }
}

/// The first line of the table.
pub open spec fn head_line(
    prs: Seq<pull_request::PullRequestModel>,
    ages: Seq<Seq<char>>,
    show_author: bool,
) -> Seq<char> {
    row_line("CI"@, heads(show_author), rows(prs, ages, show_author))
}

/// The first line of the table names the columns, and the authors are among them exactly if they
/// are asked for.
pub proof fn law_authors_are_shown_if_asked_for(
    prs: Seq<pull_request::PullRequestModel>,
    ages: Seq<Seq<char>>,
    show_author: bool,
)
    ensures
        text::split(table(prs, ages, show_author), '\n')[0] == head_line(prs, ages, show_author),
        text::occurs(head_line(prs, ages, show_author), "AUTHOR"@) <==> show_author,
{
    lemma_head_comes_first(prs, ages, show_author, prs.len() as int);
    lemma_head_is_one_line(prs, ages, show_author);
    let list = table_lines(prs, ages, show_author, prs.len() as int);
    let head = head_line(prs, ages, show_author);
    assert(list[0] == head);
    text::lemma_split_first(head, text::one_per_line(list.drop_first()), '\n');
    if show_author {
        lemma_author_head(rows(prs, ages, show_author));
    } else {
        lemma_no_author_head(rows(prs, ages, show_author));
    }
}

/// The first line is that of the column heads.
proof fn lemma_head_comes_first(
    prs: Seq<pull_request::PullRequestModel>,
    ages: Seq<Seq<char>>,
    show_author: bool,
    n: int,
)
    ensures
        table_lines(prs, ages, show_author, n).len() > 0,
        table_lines(prs, ages, show_author, n)[0] == head_line(prs, ages, show_author),
    decreases n,
{
    if n > 0 {
        lemma_head_comes_first(prs, ages, show_author, n - 1);
    }
}

/// The column heads stand on one line.
proof fn lemma_head_is_one_line(
    prs: Seq<pull_request::PullRequestModel>,
    ages: Seq<Seq<char>>,
    show_author: bool,
)
    ensures
        text::without(head_line(prs, ages, show_author), '\n'),
{
    reveal_strlit("CI");
    reveal_strlit("REPO");
    reveal_strlit("AUTHOR");
    reveal_strlit("TITLE");
    reveal_strlit("URL");
    reveal_strlit("LAST UPDATED");
    let all = rows(prs, ages, show_author);
    let row = heads(show_author);
    let cells = padded_cells(row, all, row.len() as int);
    assert forall|k: int| 0 <= k < row.len() implies text::without(#[trigger] row[k], '\n') by {}
    lemma_padded_without(row, all, row.len() as int, '\n');
    assert(text::without("CI"@ + cells, '\n'));
    lemma_trimmed_without("CI"@ + cells, '\n');
}

/// Without authors the heads do not name them.
proof fn lemma_no_author_head(all: Seq<Seq<Seq<char>>>)
    ensures
        !text::occurs(row_line("CI"@, heads(false), all), "AUTHOR"@),
{
    reveal_strlit("CI");
    reveal_strlit("REPO");
    reveal_strlit("AUTHOR");
    reveal_strlit("TITLE");
    reveal_strlit("URL");
    reveal_strlit("LAST UPDATED");
    let row = heads(false);
    let cells = padded_cells(row, all, row.len() as int);
    let line = row_line("CI"@, row, all);
    assert forall|k: int| 0 <= k < row.len() implies text::without(#[trigger] row[k], 'H') by {}
    lemma_padded_without(row, all, row.len() as int, 'H');
    assert(text::without("CI"@ + cells, 'H'));
    lemma_trimmed_without("CI"@ + cells, 'H');
    assert forall|i: int| !text::occurs_at(line, "AUTHOR"@, i) by {
        if text::occurs_at(line, "AUTHOR"@, i) {
            assert(line.subrange(i, i + 6)[3] == 'H');
            assert(line[i + 3] == 'H');
        }
    }
}

/// Where the second head of a row stands.
proof fn lemma_second_cell(row: Seq<Seq<char>>, rows: Seq<Seq<Seq<char>>>) -> (at: int)
    requires
        row.len() > 1,
    ensures
        text::occurs_at(padded_cells(row, rows, 2), row[1], at),
{
    let start = padded_cells(row, rows, 1) + "  "@;
    let cell = pad(row[1], column_width(rows, 1));
    let at = start.len() as int;
    assert(padded_cells(row, rows, 2) == start + cell);
    assert((start + cell).subrange(at, at + row[1].len()) =~= row[1]);
    at
}

/// A word that stands in the beginning of a line is not trimmed away.
proof fn lemma_words_are_kept(
    icon: Seq<char>,
    start: Seq<char>,
    all: Seq<char>,
    word: Seq<char>,
    k: int,
)
    requires
        start.is_prefix_of(all),
        text::occurs_at(start, word, k),
        word.len() > 0,
        !text::is_white_space(word.last()),
    ensures
        text::occurs(text::trim_end(icon + all), word),
{
    let line = icon + all;
    let n = word.len() as int;
    let at = icon.len() + k;
    assert forall|i: int| 0 <= i < n implies line[at + i] == word[i] by {
        assert(start.subrange(k, k + n)[i] == start[k + i]);
        assert(all.take(start.len() as int)[k + i] == all[k + i]);
    }
    assert(line[at + n - 1] == word.last());
    lemma_trim_end_keeps(line, at + n - 1);
    lemma_trim_end(line);
    let shown = text::trim_end(line);
    assert forall|i: int| 0 <= i < n implies shown[at + i] == word[i] by {
        assert(line.take(shown.len() as int)[at + i] == line[at + i]);
    }
    assert(shown.subrange(at, at + n) =~= word);
    assert(text::occurs_at(shown, word, at));
}

/// With authors the heads name them.
proof fn lemma_author_head(all: Seq<Seq<Seq<char>>>)
    ensures
        text::occurs(row_line("CI"@, heads(true), all), "AUTHOR"@),
{
    assert("AUTHOR"@.len() == 6 && "AUTHOR"@[5] == 'R') by {
        reveal_strlit("AUTHOR");
    }
    let row = heads(true);
    let k = lemma_second_cell(row, all);
    lemma_first_cells(row, all, 2, 5);
    lemma_words_are_kept(
        "CI"@,
        padded_cells(row, all, 2),
        padded_cells(row, all, 5),
        "AUTHOR"@,
        k,
    );
}

/// Padding puts spaces behind a text, as many as are missing, and never shortens it.
pub proof fn law_padding_fills_up(s: Seq<char>, width: nat, i: int)
    ensures
        pad(s, width).len() == if s.len() < width {
            width
        } else {
            s.len()
        },
        s.is_prefix_of(pad(s, width)),
        s.len() <= i < width ==> pad(s, width)[i] == ' ',
{
    assert(pad(s, width).take(s.len() as int) =~= s);
}

/// A pull request's row shows its repository, its author if that is asked for, its title, its URL
/// and its age, in this order; only the title of a draft is marked.
pub proof fn law_rows_show_their_pull_request(
    pr: pull_request::PullRequestModel,
    age: Seq<char>,
    show_author: bool,
)
    ensures
        ({
            let row = cells(pr, age, show_author);
            let k: int = if show_author {
                1
            } else {
                0
            };
            &&& row.len() == 4 + k
            &&& heads(show_author).len() == 4 + k
            &&& heads(show_author)[0] == "REPO"@ && row[0] == pr.repo
            &&& show_author ==> heads(show_author)[1] == "AUTHOR"@ && row[1] == pr.author
            &&& heads(show_author)[1 + k] == "TITLE"@
            &&& pr.is_draft ==> row[1 + k] == pr.title + seq![' ', '(', 'd', 'r', 'a', 'f', 't', ')']
            &&& !pr.is_draft ==> row[1 + k] == pr.title
            &&& heads(show_author)[2 + k] == "URL"@ && row[2 + k] == pr.url
            &&& heads(show_author)[3 + k] == "LAST UPDATED"@ && row[3 + k] == age
        }),
{
    reveal_strlit(" (draft)");
    assert(" (draft)"@ =~= seq![' ', '(', 'd', 'r', 'a', 'f', 't', ')']);
}

/// The rows are the heads and then each pull request with its age, in order.
pub proof fn law_each_pull_request_is_a_row(
    prs: Seq<pull_request::PullRequestModel>,
    ages: Seq<Seq<char>>,
    show_author: bool,
    i: int,
)
    ensures
        rows(prs, ages, show_author).len() == prs.len() + 1,
        rows(prs, ages, show_author)[0] == heads(show_author),
        0 <= i < prs.len() ==> rows(prs, ages, show_author)[i + 1] == cells(
            prs[i],
            ages[i],
            show_author,
        ),
{
}

/// A column is no wider than its widest cell.
pub proof fn law_columns_are_tight(rows: Seq<Seq<Seq<char>>>, column: int)
    requires
        rows.len() > 0,
    ensures
        exists|r: int|
            0 <= r < rows.len() && (#[trigger] rows[r])[column].len() == column_width(rows, column),
    decreases rows.len(),
{
    let front = rows.drop_last();
    let last = rows.len() - 1;
    assert(rows[last][column].len() <= column_width(rows, column));
    if front.len() == 0 {
        assert(column_width(front, column) == 0);
        assert(rows[last][column].len() == column_width(rows, column));
    } else {
        law_columns_are_tight(front, column);
        let r = choose|r: int|
            0 <= r < front.len() && (#[trigger] front[r])[column].len() == column_width(
                front,
                column,
            );
        assert(rows[r] == front[r]);
        if column_width(front, column) < rows[last][column].len() {
            assert(rows[last][column].len() == column_width(rows, column));
        } else {
            assert(rows[r][column].len() == column_width(rows, column));
        }
    }
}

/// Each cell stands behind two spaces where its column begins, and spaces fill the column up.
pub proof fn law_cells_stand_in_their_columns(
    rows: Seq<Seq<Seq<char>>>,
    r: int,
    n: int,
    k: int,
    i: int,
)
    requires
        0 <= r < rows.len(),
        0 <= k < n,
        0 <= i < 2 + column_width(rows, k),
    ensures
        padded_cells(rows[r], rows, n).len() == column_start(rows, n),
        column_start(rows, k) + 2 + column_width(rows, k) <= column_start(rows, n),
        padded_cells(rows[r], rows, n)[column_start(rows, k) + i] == if i < 2 || i - 2
            >= rows[r][k].len() {
            ' '
        } else {
            rows[r][k][i - 2]
        },
    decreases n,
{
    reveal_strlit("  ");
    law_columns_align(rows, r, n);
    law_columns_align(rows, r, n - 1);
    law_columns_align(rows, r, k);
    law_columns_fit(rows, r, k);
    let front = padded_cells(rows[r], rows, n - 1);
    let all = padded_cells(rows[r], rows, n);
    let cell = pad(rows[r][n - 1], column_width(rows, n - 1));
    assert(all == front + "  "@ + cell);
    if k < n - 1 {
        law_cells_stand_in_their_columns(rows, r, n - 1, k, i);
        assert(all[column_start(rows, k) + i] == front[column_start(rows, k) + i]);
    } else {
        law_padding_fills_up(rows[r][k], column_width(rows, k), i - 2);
        let start = front.len() as int;
        if i < 2 {
            assert(all[start + i] == "  "@[i]);
        } else {
            assert(all[start + i] == cell[i - 2]);
            if i - 2 < rows[r][k].len() {
                assert(cell.take(rows[r][k].len() as int)[i - 2] == rows[r][k][i - 2]);
            }
        }
    }
}

/// A row's line is its icon and its cells, of which only white space at the end is left out.
pub proof fn law_rows_lose_only_white_space(
    icon: Seq<char>,
    row: Seq<Seq<char>>,
    rows: Seq<Seq<Seq<char>>>,
    i: int,
)
    ensures
        ({
            let whole = icon + padded_cells(row, rows, row.len() as int);
            let line = row_line(icon, row, rows);
            &&& line.is_prefix_of(whole)
            &&& line.len() <= i < whole.len() ==> text::is_white_space(whole[i])
        }),
{
    text::law_trimming_the_end_cuts_white_space(
        icon + padded_cells(row, rows, row.len() as int),
    );
}

/// The name column of a list of checks is as wide as the widest name.
pub proof fn law_names_are_padded_to_the_widest(checks: Seq<ci::CheckModel>, n: int, i: int)
    requires
        0 <= n <= checks.len(),
    ensures
        0 <= i < n ==> checks[i].name.len() <= name_width(checks, n),
        n > 0 ==> exists|k: int|
            0 <= k < n && (#[trigger] checks[k]).name.len() == name_width(checks, n),
        n == 0 ==> name_width(checks, n) == 0,
    decreases n,
{
    if n > 0 {
        law_names_are_padded_to_the_widest(checks, n - 1, i);
        if n > 1 {
            let k = choose|k: int|
                0 <= k < n - 1 && (#[trigger] checks[k]).name.len() == name_width(checks, n - 1);
            assert(checks[k].name.len() <= name_width(checks, n));
        }
        assert(checks[n - 1].name.len() <= name_width(checks, n));
    }
}

/// A check's line is indented by four spaces, and shows its icon, its name and its URL; only white
/// space at the end is left out.
pub proof fn law_check_lines_show_their_check(check: ci::CheckModel, width: nat, i: int)
    ensures
        ({
            let name = pad(check.name, width);
            let whole = seq![' ', ' ', ' ', ' '] + check.ci.icon_text() + seq![' '] + name + seq![
                ' ',
                ' ',
            ] + check.url;
            let line = check_line(check, width);
            &&& line.is_prefix_of(whole)
            &&& line.len() <= i < whole.len() ==> text::is_white_space(whole[i])
        }),
{
    reveal_strlit("    ");
    reveal_strlit("  ");
    reveal_strlit(" ");
    assert("    "@ =~= seq![' ', ' ', ' ', ' ']);
    assert("  "@ =~= seq![' ', ' ']);
    assert(" "@ =~= seq![' ']);
    text::law_trimming_the_end_cuts_white_space(
        "    "@ + check.ci.icon_text() + " "@ + pad(check.name, width) + "  "@ + check.url,
    );
}

/// Each pull request's row stands in its place in the table, with its own icon, and the lines of
/// its checks follow it in order.
pub proof fn law_checks_follow_their_pull_request(
    prs: Seq<pull_request::PullRequestModel>,
    ages: Seq<Seq<char>>,
    show_author: bool,
    n: int,
    i: int,
    k: int,
)
    requires
        0 <= i < n <= prs.len(),
    ensures
        ({
            let all = rows(prs, ages, show_author);
            let list = table_lines(prs, ages, show_author, n);
            let at = 1 + i + check_count(prs, i);
            &&& at < list.len()
            &&& list[at as int] == row_line(prs[i].ci.icon_text(), all[i + 1], all)
            &&& 0 <= k < prs[i].checks.len() ==> at + 1 + k < list.len() && list[at + 1 + k]
                == check_line(
                prs[i].checks[k],
                name_width(prs[i].checks, prs[i].checks.len() as int),
            )
        }),
    decreases n,
{
    let above = table_lines(prs, ages, show_author, n - 1);
    let pr = prs[n - 1];
    law_one_row_for_each_pull_request(prs, ages, show_author, n - 1);
    lemma_check_lines(pr.checks, pr.checks.len() as int);
    if i < n - 1 {
        law_checks_follow_their_pull_request(prs, ages, show_author, n - 1, i, k);
    }
}

/// The ages are those of the pull requests, in order: from the time that is written to now, in
/// words; what is written, if it is no time.
pub proof fn law_ages_are_those_of_the_pull_requests(
    prs: Seq<pull_request::PullRequestModel>,
    now: time::Moment,
    i: int,
)
    requires
        0 <= i < prs.len(),
    ensures
        ages_of(prs, now).len() == prs.len(),
        time::moment_in(prs[i].updated_at) is None ==> ages_of(prs, now)[i] == prs[i].updated_at,
        time::moment_in(prs[i].updated_at) matches Some(t) ==> ages_of(prs, now)[i]
            == time::human_time(
            (t.since(now) / 1_000_000_000) as i64,
            (t.since(now) % 1_000_000_000) as u32,
        ),
{
}

} // verus!
