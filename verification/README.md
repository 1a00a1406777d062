# alsacoin

A distributed ledger built around the Avalanche consensus, written in Verus:
the models of the ledger, the in-memory key-value store, the byte forms of
the network, and the decisions of the consensus carry contracts that Verus
proves.

## Layout

- `src/bytes.rs`, `src/collections.rs`, `src/text.rs`: byte strings and
  their order, ordered maps and sets keyed by bytes, and the
  decimal and text helpers the models use.
- `src/store/`: the `Store` trait and the `BTreeStore` that keeps sorted
  key-value pairs under size limits, with the laws of its operations.
- `src/models/`: stages, timestamps, versions, nodes, signers, accounts,
  inputs, outputs, coinbases, transactions, conflict sets, consensus states,
  parameters, messages and wallets; how each is kept in a store; the regular
  expression helpers; and the laws that span several operations.
- `src/network/`: the network message, the byte form of TCP addresses, the
  transport trait and the choice of the address a node listens on.
- `src/protocol/`: the decisions of the consensus (known ancestors,
  preference, strong preference, confidence, acceptance, the conflict set
  after a query, one Avalanche step, a received transaction), those of the
  network protocol (the replies to requests and queries, which replies
  are accepted, the chits they carry, the pushed ids and counts, the nodes
  heard of, how many replies are waited for) and the reports of failed
  steps. Each decision that reads the clock has a twin, named with `_at`,
  that takes the time as an argument and states its outcome exactly.
- `app/`: the serde encodings of the models, the encoded models in the
  store, the TCP transport, and the protocol loop that sends and receives
  the messages and carries out the decisions.
- `tests/`: the tests of the library.

Hashes, signatures, random numbers and the Riemann zeta amounts of the
coinbase are computed by the caller and handed to the library.
