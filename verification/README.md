# accelerator_dao

The logic of the Accelerator DAO contracts for Neutron, written in Verus
and proved against its contracts.

- `src/` is the verified library.  Each contract is a state value and
  functions from a state and a message to a new state and a response:
  - `core_dao`, `core_execute`, `core_reply`, `core_query`: the DAO core
    (configuration, items, proposal modules, pause, helper contracts);
    `prefix` derives proposal module prefixes; `expiration` is chain time.
  - `chain_registry`: remote chain ids and their IBC connections.
  - `icq_helper`, `icq_sudo`, `icq_contract`: the interchain-query helper,
    which registers Neutron queries, pairs registrations with the query ids
    their replies bring, and records the delegations that reported
    transactions carry (`icq_tx`).
  - `icq_stake`: the first stake helper, which adds up delegated amounts.
  - `pre_propose`: the proposer of a proposal is the sender of the message.
  - `keymap`: a map with string keys kept in byte order, as contract
    storage keeps them.
  - `neutron`, `text`: the calls into `neutron_sdk` and `std` that the
    library makes, with the contracts it relies on.
  - `laws`: properties across operations (a paused DAO refuses everything
    and an unpaused one never answers that it is paused, only the DAO changes its state, items read back what was written,
    proposal module prefixes never collide, the active and total module
    counts are exact, registrations receive their ids in order, accepted
    transaction results append the delegator's delegations, paging loses
    and repeats nothing, the registry reads back what the admin recorded).
- `app/` holds the CosmWasm entry points: storage, chain queries and
  message encoding around the library.
- `tests/` runs the library on concrete values.
