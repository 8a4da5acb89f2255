# Verifier core for the Open Game Integrity Runtime

A deterministic verifier library whose behaviour is stated in Verus contracts
and proved. Cryptographic verification is not implemented yet: the flow and the
research checks never allow on their own.

## Layout

- `src/bjson.rs` - the strict flat-object JSON codec (string and lowercase-hex
  members only), with its wire grammar written as spec functions.
- `src/bjson_laws.rs` - what the codec promises across both directions: a
  decoded encoding gives back its members, a decoded object is well formed,
  and re-encoding a decoded object gives back the input with the whitespace
  outside its string literals removed, so it is no longer and decodes to the
  same members.
- `src/http.rs` - the bounded HTTP/1.1 request head parser, the request reader
  as a state machine over read outcomes, and the response text.
- `src/service.rs` - routes and wire bodies; issuance, simulation and evidence
  processing come in through narrow traits.
- `src/model.rs` - identifiers, times, challenge windows, freshness policy,
  decisions and reason codes.
- `src/freshness.rs` - replay registrations and the freshness guard over a
  publisher-controlled replay store.
- `src/verification.rs` - the gated verifier flow, its capabilities, its
  failure terminals and the research structure check, with the laws of the
  flow (one canonical gate order, terminals refuse everything, what each phase
  retains).
- `src/mock_replay.rs` - a bounded, volatile replay cache for research runs,
  with its laws (claims are single-use, loss is terminal, time never runs
  backward, retention stays within the total, per-publisher and per-account
  limits, a refused registration adds nothing).
- `src/text.rs` - character-level helpers shared by the codecs.
- `app/` - sockets: the listener, reading a request off a connection through
  the library's reader, writing the response, and the serving loop.
