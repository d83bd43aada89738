# manta_wallet

The computing core of a wallet for private payments on a Polkadot-JS ledger, verified with Verus,
and the JavaScript bindings around it.

- `src/` is the library. Every function in it has a contract that Verus proves.
  - `decimal`: amounts as decimal numerals.
  - `asset`: asset identifiers, assets and balances.
  - `post`: transfer posts, what the wallet sends to the ledger.
  - `ledger`: the connection to the ledger and the data that is pulled from it.
  - `wallet`: the wallet, the calls that it makes, and the network that they run on.
- `app/` holds the bindings: what waits, what talks to the ledger and the signer, and what crosses
  into JavaScript. It needs the `manta-accounting`, `manta-crypto`, `manta-pay` and `manta-util`
  crates of the Manta project.
- `tests/` runs the library.

One thing is believed and not proved: that `String::from_utf8` accepts exactly well-formed UTF-8
and keeps the bytes.
