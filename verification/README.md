# tracker

A block cache for following an EVM chain that survives reorganisations.

The cache keeps the blocks it has seen by number. A new block whose parent
is the cached tip is simply appended, together with the logs of the range
it closes. A block that does not extend the tip makes the cache compare the
node's blocks below the tip with its own, roll back to the newest block on
which both agree, and refill from there.

Layout:

- `src/` — the verified library (Verus).
  - `block.rs`: blocks, hash comparison, the block's text form.
  - `types.rs`: logs, filters, block identifiers.
  - `cache.rs`: the cache as a state machine. An operation
    (`initialize`, `handle_block`, `handle_batch_block`) returns a `Step`:
    either it is done, or it waits for the node's answer to a `Request`,
    which is handed back with `resume`. Every contract is stated over the
    mathematical model of the cache (`CacheState`).
  - `laws.rs`: properties that span operations, proved.
  - `provider.rs`: node-client computations (block conversion, batch
    assembly from hashes, retry bookkeeping).
  - `chain.rs`: the options, headers and cache of the command-line follower.
  - `text.rs`: decimal and hash renderings.
  - `artifact.rs`: the bytecode of a Forge build artifact.
- `app/` — the program around it: the HTTP provider on `ethers`, the async
  loop that performs the cache's requests, and `main`.
- `tests/` — tests of the library, including the reorg scenarios run
  against a mock node.
