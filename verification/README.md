# pallets

Two FRAME-style pallets as a verified Rust library (Verus):

- `kitties`: a registry of kitties (DNA, gender, owner, asking price) with
  creation against a reserved deposit, pricing, transfer, purchase and
  breeding. Its storage is a value of `kitties::Pallet`; the runtime's
  randomness, block number and currency come through the `kitties::Config`
  trait. `kitty_laws` proves what holds across its operations.
- `ocw`: the on-chain side of an off-chain price oracle (a bounded list of
  prices, its average, the validation of unsigned submissions) and the
  decisions of the off-chain worker. `price` reads a price in cents out of a
  JSON reply; `ocw_laws` proves properties that span the operations.
- `encoding` holds the Blake2 and SCALE calls that DNA generation uses;
  `frame` the dispatch origin.

`app/` holds the worker's I/O (HTTP, local storage, transaction
submission) and the serde helpers; it is ordinary Rust around the library.
