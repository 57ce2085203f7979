# farm_contract

The rules of a NEAR contract that keeps users' deposited fungible tokens,
their Ref Finance liquidity-pool shares, the shares they farm, and native
NEAR stakes, written in Verus with each method's contract proved.

- `src/` is the verified library. `Contract` holds the state in
  insertion-ordered maps (`ordered_map.rs`); its methods take the caller and
  the attached deposit as arguments and answer what the contract answers,
  with `ContractError` for a refused call. `laws.rs` proves properties that
  span several methods. `text.rs` holds the two trusted calls, into
  `near-sdk` (account ID rules) and std (string replacement), and the
  decimal numerals, written and proved there.
- `storage.rs` models how the contract's per-account maps live in storage.
  A record (`AmountMap`) is a handle: the account whose storage prefix
  holds its entries and the number of positions it counts. Under each
  prefix, storage (`Slots`) keeps the position of each key and the key and
  value at each position. Two records can point at the same prefix, and a
  record that is copied, written through and not stored back leaves storage
  changed while the stored record keeps its old count; the contract does
  both, and the contracts of its methods say what each read and write then
  gives. A read of a key whose position lies past the record's count, and a
  write that would take the count past `u64::MAX`, stop the contract, so
  the methods require that they do not happen (`token_reads`,
  `pool_writes`, ...), and the library offers a check for each.
- The per-account maps are modelled rather than wrapped: their entries are
  kept in contract storage reached through the NEAR runtime, not in the map
  value, so what a map holds is not a function of the map value and cannot
  be given a name over it; the sharing of one prefix by two records is the
  behaviour the contracts have to state.
- `app/` is the NEAR binding: it reads the runtime, keeps the state in
  contract storage, and sends the cross-contract calls that the library's
  answers ask for.
- `tests/` runs the library on concrete scenarios.
