# shiori_folio

The core of Shiori, a local personal assistant with a long-term memory kept
as Markdown notes, written in Verus: the logic is executable Rust whose
behaviour is stated in `requires`/`ensures` contracts and proved.

## Layout

- `src/` — the verified library.
  - `text`, `numbers` — character-level string operations and decimal
    numbers, specified against `Seq<char>`.
  - `text_transform` — the ordered replacement rules applied to search
    queries and to the model's answers.
  - `guards`, `tool_call`, `chat` — routing of a message (identity, memo,
    history, background recall), the contexts given to the model (where notes
    are, never what they say), tool calls leaked into replies, and the state
    machine of one conversation turn.
  - `frontmatter`, `filing`, `pending`, `yaml_edit` — filing a note into the
    library, tag and project registration, the review queue, and line-exact
    edits of the YAML registries and inbox notes.
  - `paths`, `config`, `services`, `daemon`, `model_switch`, `model_list`,
    `speech`, `recording`, `library` — where things are, the settings checks and
    the rewriting of `config.json`,
    server command lines, the lock-file protocol of shared daemons, model
    switching with roll-back, and the readings of the control panel.
- `tests/` — tests run against the compiled library.
- `app/` — a command-line program around the library: files, HTTP calls to
  the local servers, processes, the SQLite log, and floating-point settings.
