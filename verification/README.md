# rbitcoin_ibd

Initial block download for a bitcoin node, written in Verus: which bodies to ask of which
peer, what to make of what peers send, how blocks pass through the confirm pipeline, and
when the download is over. Every function in `src/` carries a contract and is proved
against it.

## Layout

- `src/state.rs`, `peers.rs`, `chain.rs`, `body.rs`, `reorg.rs`: the work state, with a
  mathematical view of each type.
- `src/assign.rs`, `assign_plan.rs`, `fetch.rs`, `race.rs`, `inflight.rs`: handing out
  getdata. `requests.rs` and `reach.rs` hold what is proved of the requests as a whole.
- `src/header_events.rs`, `body_events.rs`, `confirm_events.rs`, `peer_io.rs`, `wire.rs`:
  what incoming messages and confirm verdicts do.
- `src/path.rs`, `exit.rs`, `dial.rs`, `relslow.rs`, `cadence.rs`: the ordered path, the
  end of the download, dialing and dropping peers.
- `src/confirm_*.rs`, `load_ahead.rs`: the confirm pipeline.
- `src/perf_sample.rs`, `perf_log.rs`, `proc_rss.rs`: the periodic log lines.
- `src/keyed.rs`, `order.rs`, `text.rs`, `time.rs`, `hash.rs`: plain building blocks.
- `tests/`: the library run on concrete values.
- `app/`: sockets, threads, files and the clock around it.

## What is trusted

`src/wire.rs` calls the `bitcoin` crate for header hashes, header decoding, whether bytes
make a block, service bits and socket addresses. `src/confirm_wave.rs` calls `Arc::clone`.
Each of these functions says in its comment what is believed of the call.

Public theorems are the proof functions whose names begin with `law_`.
