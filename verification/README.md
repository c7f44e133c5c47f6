# opencord

The domain library of the OpenCord server, written in Verus: Verus verifies
every function in `src/`, and every public one carries a contract that states
what it returns.

## Layout

- `src/text.rs`, `src/time.rs`, `src/crypto.rs`: strings as character
  sequences, RFC 3339 instants (chrono), hashing, MACs and encodings
  (RustCrypto, `base64`, `argon2`; hex text is written here).
- `src/domain/`: accounts and sessions, single sign-on, organizations and
  custom domains, SCIM, bots, spaces, channels, roles and permission
  overrides, messages and embeds, attachments, audit events, commands,
  incoming webhooks, push tokens, meetings and their iCalendar invitations,
  calendar sync, reminders, retention, data export, usage, billing, media
  room tokens, metrics, rate limiting, the compatibility gateway's sessions
  and realtime events.
- `src/events.rs`: event envelopes and their Kafka topics.
- `app/`: the async services around the library (store interfaces and the
  loops that call them), clocks, process-wide state, wire forms and the
  database migrations.
- `tests/`: tests of the library on concrete values.

## Trust

Calls into outside crates go through small wrappers marked
`#[verifier::external_body]`; each states in its doc comment what its
contract claims of the outside function. Results that take pages to state
(SHA-256, HMAC, base64, RFC 3339 formatting, Unicode lower-casing, Argon2)
are named by uninterpreted spec functions, and the library's contracts are
exact over those names.
