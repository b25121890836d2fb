# kimi_feishu

Two pieces of an assistant's gateway, written in Verus:

- `feishu`: a channel to the Feishu chat platform. It decides which messages
  concern the bot, turns events and pressed buttons into messages for the
  gateway, puts payloads together that arrive in parts, says which requests go
  to the platform's API and what the answers mean, and when a lost connection is
  tried again.
- `kimi`: Kimi as a provider of chat completions, with its settings, the headers
  of its requests, and what has to be added to a request before Kimi takes it.

`src/` holds the verified library. The `laws` modules state what holds of each
piece as a whole. JSON is read and written by `serde_json`, dates come from
`chrono` and header values from `reqwest`; what is believed of these crates
stands in the contracts of a few small functions in `json`, `json_codec`,
`feishu::events` and `kimi::auth`, and of std in `text`.

`app/` is the ordinary Rust around it: the network, the clock, the environment,
and the encodings that are derived.

`tests/` runs the library.
