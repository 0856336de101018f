# horse_racing

A verified core for a horse-racing NFT game on Solana.

- `src/` (verified with Verus): the operator white list (initialize, add, remove,
  hand over the admin role), the byte layout of the NFT list account, the
  attribute rolls of minting and upgrading, and the race, which ranks the NFTs
  with an exchange sort and writes the prizes. `src/laws.rs` holds the
  properties that span instructions.
- `app/`: the Anchor program around it: accounts, Chainlink price feeds, the
  clock, the upgrade fee transfer and the events.
- `tests/`: tests of the library on concrete values.
