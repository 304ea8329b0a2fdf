# octos_app

The logic of the octos phone client, written in Verus and proved against
its contracts: what a reply may be stored as, how A2App cards are linted,
rewritten and resolved, and the small state machines behind the client's
screens (approvals, coding pane, task dock, viewers, sessions, app tabs,
voice recording, login and connection state).

Layout:

- `src/` is the verified library, one module per concern. `text.rs` holds
  the string helpers the other modules build on; `order.rs` the
  lexicographic order used to sort handles and titles. Laws that relate
  several functions are public proof functions named `law_*`.
- `tests/` runs the library on concrete values.
- `app/` is a small command-line front end for the file-backed operations
  (card lint, kernel config upkeep, WAV inspection, saved cards, opening
  links), the clock, and the floating-point helpers of the UI.

Calls into outside crates (`url`, `serde_json`) stand behind
`#[verifier::external_body]` wrappers whose doc comments say what is
assumed of them.
