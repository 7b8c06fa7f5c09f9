# repolyze

Repository analytics for Git repositories: contributions per author, activity by weekday and
hour, a year-long activity heatmap, size metrics, comparisons of several repositories, and
branch clean-up tools, as a command line program and an interactive terminal interface.

## Layout

- `src/` is the library, written in Verus: every function carries a `requires`/`ensures`
  contract that Verus proves. It holds the parsing of `git` output, the aggregation of
  contributions and activity, the calendar arithmetic, the text and Markdown reports, the
  charts, the rows stored for a snapshot, the steps of a scan against the snapshot store
  (reuse a stored analysis, analyse, store, record), the decisions of the Git tools, and
  the state and screen text of the terminal interface.
- `app/` is the program around it: argument handling, running `git`, walking working trees,
  the GitHub API (through `gh`, or HTTPS when `gh` is not signed in), the SQLite database,
  the terminal and its event loop. It hands plain values to the library
  and draws or writes what comes back.
- `tests/` exercises the library from outside.

A few standard-library calls sit behind trusted wrappers whose contracts say what the
standard library documents (`to_lowercase`, UTF-8 decoding, collecting characters into a
`String`, the system clock); everything else in `src/` is proved.
