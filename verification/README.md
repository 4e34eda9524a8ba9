# frontier_blocks

The Ethereum side of a chain whose own blocks have another format, written in Verus.

* `src/sync` fills the mapping from Ethereum hashes to chain blocks, one block a round.
* `src/eth` answers Ethereum clients that ask for blocks, transaction counts and receipts.
* `src/hashing.rs` defines the hash under which Ethereum clients know a block.
* `src/agreement.rs` states how the two sides agree.

The library does no reading or writing itself. An operation such as `sync_one_block` or
`Eth::block_by_hash` returns a `Step`: either the result, or a state and a query for the node. Once
the node has the reply, `resume` takes the state on to the next step. A reply must be of the kind
that the query asks for.

What a whole operation amounts to is stated over a node that answers each query: see `run` in
`src/machine.rs`, `run_after` for a node that changes meanwhile, and the functions whose names begin
with `law_`.

`app` holds the node around the library: it performs the queries and converts the values.
