# chase

Watches Solana blocks for transfers to the wallets of an exchange's users and
reports each one to a charging endpoint.

- `src/` is the verified library (Verus):
  - `json.rs` — the plain model of the JSON values that the logic reads;
  - `registry.rs` — supported tokens (by mint) and watched wallets;
  - `transaction.rs` — recognising a transfer to a watched wallet in one
    parsed instruction, and the record reported for it;
  - `block.rs` — the records of a whole block, the signature statuses, and
    the retry decisions when a block cannot be fetched;
  - `trigger.rs` — the retry decisions when delivering records;
  - `config.rs` — the configuration from environment variable values;
  - `import.rs` — the token list served by the import endpoint.
- `app/` is the program around it: command line, RPC and websocket clients,
  HTTP, files, logging, and the floating-point SOL amount.
- `tests/` exercises the library on concrete blocks and settings.
