# pro_logue

A lab notebook for the terminal. It keeps timestamped journal entries and tasks in one
JSON file, which lives in a Git repository of its own. Every change is committed there, and
pushed unless `COMMIT_AND_PUSH` in `app/config.rs` is switched off.

The library under `src/` is written in Verus: its functions state what they do in
`requires` and `ensures` clauses, and the proofs stand beside the code.

- `text`: strings as sequences of characters.
- `calendar`: dates, clock times and the local clock (chrono).
- `journal`: entries by day, and tasks.
- `search`: terms, matches, and the order of the results.
- `state`: the notebook and what can be done to it.
- `input`: what the keys do.
- `screen`: what stands on the screen.
- `storage`: the data file, the configured path, and credentials.
- `sync`: saving a change, and the course of a commit and a push.
- `laws`: what holds of all of these together.

The program under `app/` draws on the terminal, reads keys, and reads and writes the data
file and its repository. What can be configured stands in `app/config.rs`.

## Keys

- `Tab` and `Shift+Tab` move the focus: entry, tasks, search, results, journal.
- Entry: `Enter` submits, `Shift+Enter` breaks the line. What starts with `*` is a task.
- Tasks: `Enter` marks the selected task done.
- Search: `Enter` searches for the comma-separated terms; with nothing to search for it
  opens the selected result, where no modifier is held. `Ctrl+G` searches too.
- Results and journal: `Enter` opens the selected item; `Esc` closes it.
- `Up` and `Down` move within the part in focus, and `Ctrl+C` quits.
