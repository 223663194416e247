# deltav

Delivery metrics for systems engineering projects tracked on GitHub
Enterprise: weekly reports of ticket throughput, velocity, capacity, CSCI
completion (Tier 1 integration-ready / Tier 2 HIL-passed), external
dependencies, documents and milestones.

The library under `src/` is written in Verus, and Verus proves its functions
against their contracts. The exceptions are the few small wrappers marked
`#[verifier::external_body]`, whose contracts are assumed rather than proved:
the calls into `chrono` (`day_number_of`, `display_day`, `iso_week`, `now`,
`today_local`), into `regex` (`check_pattern`, `pattern_matches`) and into
std (`push_char`, `to_uppercase`). Each states what the
called function's documentation promises, and what it leaves open is named by
an uninterpreted spec function (`regex_compiles`, `regex_is_match`, and
`uppercase` for text beyond ASCII).

- `text` — character-level string helpers and their specifications.
- `calendar` — dates as day numbers, UTC instants, ISO weeks.
- `cli` — output formats and ISO week strings (`YYYY-Www`).
- `pattern` — repository-name patterns (through the `regex` crate).
- `schema` — the project configuration (`project.toml`) and its validation.
- `github` — GitHub API values, token selection, request URLs and the
  sifting of result pages.
- `report` — the report data, the metrics computed from issues, and the
  Markdown and HTML renderers.

Quantities the report computes in floating point (capacities, velocity
averages, percentages) are carried by the library as IEEE-754 bit patterns;
the application under `app/` computes them, formats them, and hands the texts
to the renderers. The application also reads and writes files, parses the
command line, and talks to GitHub.

`tests/` holds the library's tests.
