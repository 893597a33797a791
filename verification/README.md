# lineark

A command-line client for [Linear](https://linear.app), for people and for LLM
agents, whose decision-making core is verified with Verus.

## Layout

- `src/` — the verified library. Everything that decides what the client does is
  here, with `requires`/`ensures` contracts proved by Verus:
  - `resolve` — turning what the user typed (a team key, a name, an issue
    identifier, `me`, or a UUID) into a UUID, given the candidates the API
    returned, with the exact error messages for missing and ambiguous matches;
  - `labels`, `cycles`, `issues`, `users`, `notifications`, `projects`,
    `documents`, `milestones`, `initiatives`, `teams`, `viewer` — the rows of each
    table, list filters and orderings (labels grouped and sorted by name, the
    window of cycles around the active one, finished issues hidden), and the
    requests each command refuses before calling the API;
  - `relations`, `comments`, `embeds`, `dates` — which relation a request makes,
    download file names and upload content types, date flags;
  - `profile`, `update_hint`, `output` — token files and profiles, the update
    hint, the output format and the indented layout of a single item;
  - `text`, `ids`, `seqs` — shared text and sequence facts.
  Calls into `uuid`, `percent-encoding`, `chrono` and `std` string functions go
  through small trusted wrappers whose contracts are documented next to them.
- `app/` — the executable: argument parsing (clap), the GraphQL client (reqwest),
  terminal output (tabled, colored), files and the home directory. It fetches
  data, hands plain values to the library, and prints what comes back.
- `tests/` — tests of the library on concrete values.

Laws that span functions (for example, that a UUID always resolves to itself,
that the label table shows every label, or that hiding finished issues is
idempotent) are stated as public proof functions next to the code they are about.
