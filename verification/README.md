# sms_activate

A client library for the sms-activate protocol family (`handler_api.php?action=…`) and for
5SIM's REST API, with its parsing, classification, request building and retry policy proved
correct by Verus.

- `src/` — the verified library. Every answer is parsed from text by functions whose contracts
  state the result exactly over spec models (`json`, `protocol`, the provider modules); money
  is exact (`amount::Amount`, 10⁻¹⁸ units), so a price that is not a whole number of such
  units or lies outside their `i128` range (`"inf"`, `"1e-30"`, a price-map key like either) is
  refused or, inside a map, left out; tables keep unique keys (`keymap::KeyMap`).
  Every request is tied to its answer: `Transport::answers` says what a transport may answer a
  URL, and each client method states what it sends and what it makes of any such answer.
  `laws.rs` and `provider_laws.rs` hold the properties that span functions.
- `src/providers/` — Hero-SMS, SMSBower and Tiger SMS as dialects of the generic
  `api::Client`, and 5SIM as its own client. The retry policy of `hero_sms::RetryTransport` is a
  state machine (`begin` / `next_step` / `after_fetch`).
- `app/` — what Verus does not see: the `ureq` transport, the loop that runs the retry policy
  and sleeps, ready-made clients, and serde / `std::error::Error` versions of the public types.
- `tests/` — scenario tests, run against the compiled library.
