# Coordinator Substrate

The coordinator's streams of the events of Serai blocks, verified with
[Verus](https://github.com/verus-lang/verus).

## Layout

- `src/` is the verified library.
  - `task` processes a range of blocks: which blocks are due, what's fetched ahead, and what's kept
    where a block can't be processed. `canonical_stream` and `ephemeral_stream` are the tasks.
  - `canonical` decides what the processors of external networks are sent for a block, and
    `ephemeral` which validator sets are announced. Both write a block's effects all at once.
  - `cosign`, `auxiliary_keys` and `db` are what the streams read from and write to. `events`,
    `messages`, `node`, `primitives`, `network_id` and `errors` are what they're made of.
  - `validator_set` assigns participants to the validators of a set.
  - `test_helpers`, `cosign_types` and `task_test` are for tests. The randomness comes from
    `rand_core` (`random`), and the signatures from `schnorrkel` (`keypair`).
- `app/` runs the streams as asynchronous tasks over a shared database and a connection to a Serai
  node, and stores validator sets with `borsh`.
- `tests/` runs the library against a shim of a Serai node, on random blocks.

## What is proven

Each function states what it returns or writes, but for the helpers which draw at random: of those
it's stated what holds of every outcome, and a function beside them, which takes what was drawn,
states what's made of it. Beyond that, public proof functions state what holds of the library as a
whole. Among them:

- Each network's processor is sent the network's batches with contiguous IDs, from zero on, and the
  blocks in ascending order, however often a stream is run and whatever the node answers.
- A run which fails keeps all blocks before the one it failed at, and the next run starts from there.
- A run which succeeds reached the latest cosigned block. Scanning never goes back.
- However many blocks are fetched at once, the outcome is that of going block by block.
- How a block's events for different networks are interleaved doesn't matter.
- The participants of a validator set are one through its total weight, each with one validator.

What's trusted is listed where it's declared: the items marked `external_body` in `random`, `keypair`
and `task_test`.
