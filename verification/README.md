# sans-effort

Effect routines: a routine written as an ordinary `async fn`, whose every
wait is a typed effect answered by whoever drives it — tokio, or a foreign
host one wait at a time.

## Layout

- `src/` — the library, verified with Verus. Every decision the stack makes
  about data lives here, with its contract:
  - `boundary/` — the little-endian byte codec (`Writer`, `Reader`,
    `Encode`, `Decode`), the detached handle `Pending`, and `HostEffect`.
  - `reply/` — the reply menu (`Value`, `Kind`), the typed `ReplyHandle`,
    and the `Reply`/`Answer` traits: the four wire kinds answer as
    themselves, and a `Result` or an `Option` crosses as `bytes` in the
    codec's encoding (tag `0` for `Ok`/`None`, `1` for `Err`/`Some`).
  - `driver/` — the mailbox (`Mail`) that pairs each reply with the request
    that asked for it and refuses one its request's check rejects, the
    outbox state (`Inner`), how a poll is classified
    (`Status`), and what one call yields (`Yield`, `Step`).
  - `effects/` — the standard effects (`ReadLine`, `WriteLine`, `Sleep`),
    their wire forms, and how a line read from input is finished.
  - `host/` — the contract's numbers, `Error` and `Status` with their codes,
    the reply record grammar (`Input`), the frames a host receives, the
    handle table's decisions, and the table of outstanding requests
    (`Wallet`) that turns an untyped `(id, value)` back into a typed reply.
- `tests/` — tests of the library on concrete values.
- `app/` — the runtime around the library: the drivers that poll a routine's
  future, the futures and contexts a routine is written against, the
  process-wide handle table with its locks and panic isolation, and the
  native tokio contexts.
