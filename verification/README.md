# soroban-fork

A local fork of a Soroban network. Ledger entries are fetched from an RPC
endpoint when a contract first reads them, kept in memory, and optionally saved
to a cache file. A JSON-RPC server answers as the endpoint would, with methods
of its own that write entries, deal balances, swap code and close ledgers.

The logic is written in Verus. Contracts state what each function returns and
changes, and proof functions named `law_…` state what holds of several
functions together.

## Layout

- `src/` is the verified library.
  - `ledger`, `codec`, `scval`, `strkey`: keys, entries and values, and their XDR.
  - `store`, `source`: the entries that a fork holds, and when to fetch more.
  - `rpc`, `duration`: retries, batches and answers of the endpoint.
  - `fork`, `test_accounts`, `cache`, `fees`: the fork and its ledger, its funded
    accounts, what is saved, and what a transaction costs.
  - `trace`, `auth_tree`, `render`: call and authorization trees as text.
  - `transaction`, `server`: envelopes, the server's methods, and the worker that
    carries them out.
  - `workspace`: building a contract of a cargo workspace.
- `app/` is the program around it: the command line, HTTP, files, cargo, and
  the contract host.
- `tests/` runs the library.

Functions marked `#[verifier::external_body]` call outside crates. Their
contracts are taken on trust; each says what it claims of the call.
