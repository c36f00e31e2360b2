# toad

A CoAP (RFC 7252) library whose logic is verified with Verus.

- `src/` is the library. Verus checks every function in it against its
  `requires`/`ensures` contract, except the few small trusted items marked
  `#[verifier::external_body]` or written as `assume_specification`: the
  calls into `core::str`/`String` UTF-8 decoding, `blake2`, `rand` and
  `rand_chacha`, `no-std-net` and `log`, whose contracts are taken on trust
  from those crates' documentation and source.
  - `msg` — the message model, option numbers and values, and the byte codec
    (`from_bytes`, `to_bytes`) with its round-trip law.
  - `req`, `resp`, `option` — requests, responses and request building.
  - `retry`, `config`, `time` — retry strategies and timers, runtime timings,
    and instants on a wrapping millisecond counter.
  - `runtime` — the state of a CoAP runtime (ids and tokens seen, responses
    held, confirmable messages to send again) and its decisions; the caller
    owns the socket and the clock and hands in the current time.
  - `server` — the `Ap` request-handling flow, path and method filters, and
    responders.
  - `cache_key`, `toad_string`, `platform`, `blocking`, `net`, `utf8`.
- `app/` holds what touches the operating system: the clock, UDP sockets,
  logging, JSON bodies, and the loops that drive the runtime.
- `tests/` exercises the library on concrete values.
