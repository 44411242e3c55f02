# svm_datum

What a ledger's runtime records of the accounts of its transactions, and the access token with
which the ledger's storage is reached. The library is written in Verus: its functions are proved to
meet the contracts that stand beside them.

- `transaction_balances`: native and token balances, account datums and owners, from before and
  after each transaction of a batch. Accounts are loaded through a function that the caller hands
  in; the contracts hold whatever it answers, and say what it is asked. `balance_laws` holds what
  follows for every record.
- `datum_inclusion`, `program_inclusions`: which datums are recorded, by owning program, and how
  this is read from configuration files.
- `access_token`: when a token is refreshed, and what becomes of the outcome.
- `account`, `pubkey`, `spl_token`: the data that these share. `pubkey`, `spl_token` and
  `access_token` also hold the contracts that are stated of outside crates.

`app/` connects the library with files, the network and the runtime's own types. `tests/` runs the
library with the outside crates.
