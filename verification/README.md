# cw_starter

A poll contract for CosmWasm chains, written in Verus. Anyone may create a
poll (paying the configured fee, if any), vote on one of its options, change
that vote, and close a poll; queries list the polls, read one poll, one ballot,
or the configuration.

## Layout

- `src/` is the verified library.
  - `state.rs`: coins, configuration, polls, ballots, and `Store`, a model
    of the contract's storage kept in memory as plain values (polls in ascending byte order of
    their ids, as the chain's storage walks them).
  - `msg.rs`: messages, responses and attributes.
  - `error.rs`: `ContractError`.
  - `contract.rs`: the handlers. `instantiate_config`, `execute_create_poll`,
    `execute_close_poll` and `execute_vote` decide on values read from storage
    and return what to write back; `instantiate`, `execute` and `query` run
    them on a `Store`. The spec functions `create_poll_model`,
    `close_poll_model` and `vote_model` say what each message does.
  - `poll.rs`: where a vote counts (the first option with its name) and when a
    vote runs without a fault.
  - `laws.rs`: properties proved of the handlers: tallies stay equal to the
    ballots cast, add up to the number of voters, a repeated vote changes
    nothing, closed polls stay unchanged, queries read back what was written,
    and a refused message changes nothing but for a vote for a missing
    option, whose ballot is still recorded.
  - `order.rs`, `entries.rs`, `decimal.rs`: byte order of ids, maps kept as
    vectors of entries, and decimal formatting of amounts.
- `app/` holds the chain entry points: storage through `cw-storage-plus`,
  address validation through the chain's API, JSON responses, and the error
  messages.
- `tests/` runs the handlers on a `Store`.
