# gossipsub_testground

Simulations of gossipsub networks on [testground](https://github.com/testground/testground). What
the simulations decide and compute is a library that Verus verifies; the programs around it drive
the transport, the clock and the test service.

## Layout

- `src/`: the verified library.
  - `gen_topology`, `gen_topology_files`: random topologies, their checks and their files.
  - `instance_params`, `participants`: the parameters of a run and the nodes that take part in it.
  - `influx`, `openmetrics`, `recording`: how metrics become write queries.
  - `smoke`, `emulation`, `episub`, `flood_publishing`, `eth_consensus`, `censoring`, `scoring`,
    `scoring_parameters`: the simulations.
  - `rng`, `hashing`, `clock`: random draws, digests and dates, which outside crates give.
  - `text`, `bytes`, `ordered`: texts, bytes and sorted collections.
- `tests/`: tests of the library.
- `app/`: the programs.

## What is proved

- A topology depends on its parameters alone. Each validator is run by exactly one node, no node
  dials itself or a node that it is connected to already, no node has more connections than it wants,
  and generation fails exactly where a node is left without any connection.
- A smoke test succeeds only when the messages of all other instances are received.
- A message that is cut into fragments is kept as a whole and in order.
- A censoring node grafts every topic that a peer subscribes to, subscribes to each whose name is not
  too long to be sent, and forwards nothing.
- Every query that is written to the database is stated in full.
