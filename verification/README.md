# searcher_cli

A command-line client of a block engine. It asks for the next leader, for the connected leaders and
their stake, and for the tip accounts, and it sends bundles: transactions that leave a memo and tip
the block engine, or that open a market on an exchange and buy from it.

`src/` is the library, verified with Verus: bundles and their messages, the stake of the connected
leaders, when a bundle may be sent, and what is reported of leaders and of a stream of pending
transactions. `app/` is the program around it: arguments, key files, the network, the decoding of
packets, logging, and the percentages of stake, which are in floating point.
`tests/` runs the library with the real crates of the on-chain programs.

Instructions, keys and messages are plain values in the library. The crates that build
instructions (`spl-memo`, `spl-token`, `serum_dex`, `solana-sdk`) are called through small
wrappers; what each contract claims of them stands in a comment above the wrapper.

A bundle holds at most five transactions. Each is paid for and signed by one key pair.
