# minimum_viable_blockchain

A minimal blockchain: signed transactions, blocks sealed by proof of work, and miners that
gossip blocks, transactions and peer lists over UDP.

- `src/` is the library, verified with Verus.
  - `hash`, `json`: SHA-256 of the JSON text of the chain's values.
  - `chain`: keys and addresses, transactions and their signatures, headers, blocks, the
    chain, the inputs of account balances, and laws about them (`chain::laws`).
  - `consensus`: the peer table, the decisions of a mining node and of a gossip node (each
    message and each timer round gives the next state and the network actions), and laws
    about them (`consensus::laws`).
  - `wallet`: reading a transaction typed by a user and signing it.
- `app/` is the program: sockets, threads, the serde forms of messages, account balances
  (sums of doubles), and the interactive wallet.
- `tests/` runs the library on concrete values.

Amounts of coin are doubles. The library holds each amount as the bit pattern of the double
together with its JSON text, compares amounts as doubles do, and leaves the arithmetic on
balances to `app/`, which hands the library the list of senders whose balance is above the
floor.
