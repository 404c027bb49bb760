# smart_tx_stack

A Solana transaction stack that streams slots and transactions from a Yellowstone gRPC
endpoint, submits memo bundles to a Jito block engine with a dynamic tip, follows each
bundle through processed, confirmed and finalized, and asks an LLM agent how to recover
when a bundle fails.

The library under `src/` is verified with Verus:

- `engine/tracker.rs` — the lifecycle tracker: submissions, commitment updates, failure
  classification, blockhash expiry, the block-time cache and summary statistics;
  `engine/tracker_laws.rs` states and proves what every update keeps.
- `engine/tip.rs` — tip statistics (sorted copies, the 75th percentile, averages), the tip
  floor and cap, the tip-account cache and the Jito endpoints.
- `engine/bundle.rs`, `engine/memo.rs` — what a bundle submission sends and what a memo
  transaction holds.
- `engine/retry.rs` — what follows a blockhash expiry (abandon, stop or retry, with the
  retry cap, the agent's tip or the 1.5x fallback, and the chain's history) and when an
  intent is submitted.
- `streaming/yellowstone.rs` — the leader schedule, the Jito submission window, the reconnection
  waits and the events built from stream messages.
- `ai/agent.rs` — provider detection, the failure prompt, request URLs, headers and bodies,
  reading and cleaning the model's reply, and the fallback endpoint.
- `text.rs`, `time.rs`, `encoding.rs`, `json.rs`, `maps.rs` — strings, instants, base58,
  JSON reading and string literals, and the concurrent maps the tracker keeps its records in.

`app/` is the program around it: configuration, the HTTP, RPC and gRPC calls, the serde
copies of the library's types, the dynamic tip (computed in floating point) and the main event loop.
