# tfn_platform

A verified model of the TeachFi platform contract for MultiversX: schools,
companies and franchises subscribe to the platform, each subscriber
whitelists the wallets that may use it, and views report who has access.

- `src/types.rs` – addresses, subscribers, payments, errors, and the calls
  the platform asks to be made on its main DAO.
- `src/state.rs` – the storage as a mathematical value (`ConfigState`), its
  invariant, and one spec function per endpoint giving the next storage and
  the answer.
- `src/config.rs` – `ConfigModule`: the storage, the owner settings and the
  views, each proved to follow its spec function.
- `src/contract.rs` – `TFNPlatformContract`: the subscription endpoints.
- `src/helpers.rs` – franchise membership and which student lookup to make.
- `src/laws.rs` – properties that hold across endpoints.
- `app/` – the chain-facing contract: storage, caller, block time, payments
  and calls to the main DAO, around the library.
