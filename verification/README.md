# zcash_voting

Voting state of a shielded-pool wallet: rounds, delegation bundles, votes and
the shares of votes that helper servers submit. The rules that read and change
this state are written and proved in Verus.

## Layout

- `src/` is the verified library.
  - `storage::table` is a table of rows under unique keys; `storage::rows` and
    `storage::tables` are the voting tables. The contents of all tables are one
    value in contracts, `Tables`.
  - `storage::queries` are the operations. Each one that changes state has an
    outcome, a function from the tables before to the tables after or to a
    fault; its contract says that it does just that, and that it changes nothing
    when it is refused.
  - `storage::laws` states what holds of all operations and of several of them
    together: wallets do not touch each other's rows, rows keep their parents,
    submitted votes are final, what was stored is read back.
  - `storage::notes` identifies notes, `storage::field` reads field elements,
    `storage::urls` reads and writes lists of servers.
  - `storage::sql` numbers the named parameters of SQL statements, and
    `storage::migrations` chooses how a database is brought up to date.
  - `precompute` judges what vote trees, Merkle roots and proof servers answer.
- `tests/` runs the library.
- `app/` keeps the tables in SQLite. It loads the rows of a wallet, runs an
  operation of the library and stores what changed, in one transaction.

## Rows and their parents

Bundles, cached tree states and ballot intents belong to a round. Proofs,
Keystone signatures, witnesses, non-membership proofs, votes and shares belong
to a bundle. A row is stored only if its parent exists, and goes with it.

## What is not proved

The contracts of four calls are believed as stated beside them: BLAKE2b
(`blake2b_simd`), decoding elements of the Pallas base field (`pasta_curves`),
and writing and reading JSON (`serde_json`). What lies outside the library, such
as SQLite and the clock, hands it plain values.
