# ghpr

A terminal UI for reading and replying to GitHub pull request comments,
with its core verified by Verus.

## Layout

- `src/` — the verified library:
  - `app.rs`: the application state and `App::handle_event`, whose contract
    (`event_step`) states what every key press, API result, tick and
    clipboard outcome does; outside work (API calls, the browser, the
    clipboard, the editor) is queued as `Action`s for the caller.
  - `github/`: the raw GraphQL shapes, their conversion into domain types
    (timeline filtering, thread conversion, the stable thread orders),
    paging through review threads, the response envelope and addresses.
  - `cli.rs`: `owner/repo#number` references, parsed as the command line
    gives them.
  - `ui/`: what each line of the screens reads and how it looks, and comment
    bodies rendered as markdown and made safe for terminal cells.
  - `text.rs`, `time.rs`, `auth.rs`, `update.rs`: strings, instants, the
    choice of token, and the release check.
- `app/` — the program around it: terminal, HTTP, JSON, the editor, the
  clipboard and drawing with ratatui.
- `tests/` — tests of the library.

Calls into jiff, self_update, tui-markdown and std's formatting stand behind a few
`#[verifier::external_body]` wrappers whose contracts are trusted.
