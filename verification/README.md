# vibe-kanban

The decision logic of a Kanban board that is worked on by coding agents, verified with Verus.

- `src/sync/` plans how a board is brought in line with a snapshot of GitHub issues and prepares
  the requests that carry the plan out. Planning has no side effects; sync runs only on request.
- `src/autopilot/` takes a workspace from a finished implementation through review and review
  fixes to a merged pull request: it reads agent logs, decides what a review says, names the next
  action, guards the start of sessions, runs over linked pull requests and plans batches.
- `src/github_issues.rs` reads repository names and issue URLs and prepares requests to GitHub.
- `src/text.rs`, `src/json.rs`, `src/ids.rs` and `src/api.rs` are what these stand on.

Every function in `src/` has a contract over sequences of characters and plain values. Properties
that span several functions stand beside them as proof functions named `law_*`.

What needs the outside world is in `app/`: HTTP routes over a backend trait, the query for the
processes of a workspace, and calls of the `gh` command. Where a decision needs outside evidence,
the library asks for it step by step and `app/` runs the loop.

The library calls `serde_json` to parse JSON, `url` to take URLs apart, `chrono` to read times and
`uuid` to draw and write identifiers. Each call stands in a small function whose doc comment says
what is taken on trust.
