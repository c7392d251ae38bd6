# bibot

The reply logic of a club Discord bot, verified with Verus.

- `src/` — the library: what each slash command answers (`replies`, `dice`,
  `iss`, `version`, `weather`, `notion`, `linkedin`, `luma`), the text helpers
  they share (`text`), and the cutting of long messages into chunks
  (`chunking`), with its laws `law_chunks_keep_message`,
  `law_closed_chunks_are_full` and `law_chunks_are_runs_of_lines`.
- `app/` — the bot itself: Discord and Shuttle plumbing, HTTP requests, JSON
  decoding and the language-model call, which hand plain values to the library.
- `tests/` — concrete checks of the library, run against the real outside crates.
