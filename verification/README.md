# gh_wrapper

A small helper for GitHub pull requests on top of `gh`. It lists open pull requests, merges and
rebases them, waits for their CI, runs failed jobs again and opens new ones:

    gh_wrapper [--actions] [--draft] [--watched]
    gh_wrapper merge <pr-url>
    gh_wrapper rebase <pr-url>
    gh_wrapper wait <pr-url>
    gh_wrapper rerun <pr-run-or-job-url>
    gh_wrapper pr <branch>

## Layout

`src/` is a library that decides everything and does nothing itself. It says which programs to
run, what their output means, what to tell the user and what comes next. It is written in Verus:
every function has a contract that is proved.

- `text`, `number`, `calendar`, `time`: strings as sequences of characters, decimal numbers, the
  Gregorian calendar, moments in UTC
- `process`, `query`: programs and their results, what `gh` is asked
- `ci`, `pull_request`, `table`: what GitHub reports, and how it is listed
- `url`, `merge`, `rerun`, `create`, `wait`, `notification`, `cli`: one module for each thing that
  can be asked for, and what they share

Proof functions whose names start with `law_` state what holds of several functions together.

`app/` is the program: it runs the commands, decodes JSON, sleeps and prints.

What the proofs rest on beyond Verus and its library are the items marked
`#[verifier::external_body]` in `time` (chrono and chrono-humanize), `process` and `ci` (UTF-8 and
lowercase of std), and one `assume_specification` in `text`. Each says what it claims.
