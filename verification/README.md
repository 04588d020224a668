# nautilus_agents

A verified library for authoring and assuring agent policies that propose one narrow, semantic
action (`ReducePosition`) to NautilusTrader. Every function under `src/` is checked by Verus
against its `requires`/`ensures` contract, except seven small trusted wrappers around outside
code (listed below), whose contracts Verus takes as given.

## Layout

- `src/protocol/` — strict protocol values (identifiers, canonical decimal quantities,
  timestamps, SHA-256 content digests, JSON pointers), identities, capability grants, ordered
  sets, observations and their validation, requests, receipts and errors, and the RFC 8785
  canonical JSON of an observation's content.
- `src/authoring/` — policy decisions and errors, runner configuration, the trace outcome of
  one policy evaluation and the assembly of its agent-side trace.
- `src/assurance/` — advisory checks, retention-aware recording decisions, side-by-side
  comparison of two policy outcomes, and the trace types.
- `src/client.rs` — client failures; `src/conformance.rs` — contract asset descriptions.
- `src/testing.rs` — deterministic, proven-valid values for consumer tests.
- `app/` — the host side: the asynchronous `ProposalPolicy` and `AgentClient` traits, the
  runner's timeout and panic capture, shadow evaluation, JSON wire forms and JSONL file
  recording.
- `tests/` — executable tests of the library.

Outside crates are reached from `src/` only through the trusted wrappers: `sha256_digest`
(`sha2`), `uuid_parse_str`, `uuid_hyphenated` and `uuid_new_v4` (`uuid`), and, from std,
`push_char` (`String::push`), `debug_str` (`Debug` of a string) and `error_kind_debug` (`Debug`
of an I/O error kind).
