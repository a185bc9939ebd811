# sentence_binder

A macOS helper for collecting sentences: a double Cmd+C captures the selected text,
a local LLM translates it, and the sentence is kept in a searchable SQLite library.
API keys for LLM providers live in the OS keychain.

Layout:

- `src/` — the verified library (Verus). Every rule of the app that does not need
  I/O lives here with its specification: the double-tap detector, the Cmd+C test,
  provider names, API-key validation and keychain outcomes, the credential circuit
  breaker, the tags column format, bulk-insert chunking, the FTS5 query builder,
  cleanup of LLM replies, the user prompts, the HTTP status rule and error messages.
- `app/` — the Tauri application around it: commands, the event tap, SQLite
  statements, keychain store setup, the system prompts and HTTP calls to the MLX
  server.
- `tests/` — tests of the library.
