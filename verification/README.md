# lab_resource_manager

The infrastructure of a laboratory resource reservation manager (GPU servers and rooms),
written in Verus: configuration, notification messages, reservation storage in Google
Calendar, identity links, MCP tokens and usage observation.

- `src/` is the verified library. Every function carries a contract over mathematical
  models (`Seq`, `Map`, views); the few calls into `chrono`, `chrono-tz`, `uuid` and
  `String::push` stand behind small trusted wrappers whose doc comments say what is
  claimed of them. Laws that relate several functions are public proof functions, such as
  `lemma_event_round_trip` (a reservation written as a calendar event reads back as
  itself), `lemma_title_round_trip`, `lemma_decimal_parses_back`, `lemma_sort_numbers`,
  `lemma_without_repeats` and `lemma_idle_evidence_told_apart`.
- `tests/` runs the library on concrete values.
- `app/` is ordinary Rust around the library: the environment, the TOML and JSON files,
  the Slack and Google Calendar clients, and the usage report directory.
