# horsie_agent

The decisions of an agent that runs in turns: what is queued for it and what it
takes next, what a provider call and its end mean, what its tools may do, what
it waits for, and what is written to its journal.

- `src/` is the library. It holds no channels, clocks or services: a command
  comes in with the state and the moment it is decided at, and events, answers
  and work to start come out. Every function is proved against its contract,
  but for a few calls into `serde_json` and `uuid`, in `json.rs` and `ids.rs`,
  whose contracts are taken on trust.
  The laws that span several of them are the `law_*` proofs beside what they
  speak of.
- `app/` is the plumbing: mailboxes, tasks, toolboxes that run calls, the
  services an agent is loaded from, and copies of types that `serde` writes.
- `tests/` runs the library on concrete values.

A state is only ever moved by folding events, so a replayed journal and a live
run end in the same state. Contracts speak of models: each type's `deep_view`,
with texts as sequences of characters and collections as sequences, sets and
maps.
