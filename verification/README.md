# llmconduit

The verified core of an LLM API gateway. It translates between the Responses API, the Chat
Completions API and the Messages API, in both directions and for streams as well as whole answers,
and it holds the rules of the gateway's configuration.

- `src/` is the library. Every function of it is verified with Verus: its contract says what it
  returns for every input, over the models of the values.
  - `models/` holds the requests, items and events of the three APIs, `json.rs`, `text.rs`,
    `paths.rs` and `collections.rs` what they are made of.
  - `adapters/` translates requests and streams.
  - `config/` resolves profiles, templates, upstreams and prices, and routes models to them.
  - `cli.rs` holds the rules of the configuration flow, `compaction.rs` those for conversations
    that grow too long, `debug_ui.rs` those of the debug page and its socket.
- `tests/` runs the library.
- `app/` is what surrounds it: files, prompts, sockets and calls over the network.

Where the library calls an outside crate, the call stands in a small function with a contract that
is believed rather than proved. Its doc comment names the call and says what is claimed of it.
