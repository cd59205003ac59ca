# milestone_escrow

The off-chain half of a milestone-based grant escrow on Cardano. Funds are
locked at a script's address and paid out tranche by tranche, as milestones are
approved or, after a deadline, claimed.

`src/` is a library that Verus verifies:

- `plutus`, `datum`: Plutus data, the escrow's datum and redeemers, and their
  CBOR and hexadecimal forms;
- `hexadecimal`, `text`, `json`, `address`: texts, JSON and addresses;
- `ledger`, `fees`: transactions under construction, fees and least values;
- `tx`: the transactions that create an escrow, approve a milestone, and
  release or claim a tranche;
- `grants_meta`: names and descriptions of grants, kept beside the chain;
- `blockfrost_client`: what is read from the chain;
- `config`, `handlers`: the service's settings and its answers.

Calls into the `pallas` crates, `hex` and `serde_json` stand behind small
functions whose contracts Verus takes as given; each says in its comment what
it relies on.

`tests/` runs the library with the real crates. `app/` is the HTTP service
around it: environment, files, Blockfrost and the router.
