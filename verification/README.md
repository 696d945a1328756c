# game_contract

The game contract of a chess platform: two players stake tokens on a game, the
winner takes the pool less a protocol fee, a backend signs puzzle rewards, and
players carry an Elo rating. The library is verified with Verus.

- `src/contract.rs` - the contract: its state and its calls
- `src/model.rs` - the same calls as a mathematical state machine
- `src/soundness.rs` - what holds of every state, and what no call undoes
- `src/laws.rs` - what the calls promise together
- `src/run.rs` - what holds over any sequence of calls
- `src/game.rs`, `src/rating.rs`, `src/ledger.rs`, `src/claim.rs` - games,
  ratings, balances and signed claims
- `src/store.rs` - the tables of the contract, held in the host's maps
- `app/` - the contract on the network: storage, tokens, events

A call never touches the network. What only the network knows is an argument;
what the network has to do is a list of effects that the caller carries out.

What is believed without proof is in `src/store.rs` and `src/claim.rs`: how the
host's maps behave, and that the text form of an address, a SHA-256 digest and
the verdict on an Ed25519 signature depend on their inputs alone.
