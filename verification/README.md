# movement

A verified library for the Movement command-line tool and the Aptos subnet
VM of the M1 chain, written in Verus.

`src/` holds the logic with its contracts:

- `uleb128`, `bcs_codec`, `hex_codec`, `decimal`, `u256`, `text`: encodings
  and text helpers (BCS through the `bcs` crate, hex through `hex`).
- `address`, `arg`, `arg_json`, `member`: account addresses and account
  arguments that name profiles, typed Move arguments (`type:value`, JSON
  vectors, and their JSON rendering) and `<address>::<module>::<member>`
  ids.
- `options`, `config`, `named`, `keys`, `package`, `init`, `gas`,
  `summary`, `move_cmds`, `errors`: the CLI's options, its config of named
  profiles, key encodings and sources, package settings, the decisions of
  `init`, of submitting and profiling transactions and of the `move`
  commands, and its errors.
- `executor`, `vm`: the block executor's and the subnet VM's decisions
  (execution plans, the tree of executed blocks and its pruning on commit,
  commit checks, bootstrapping state, block building, batch gossip, RPC
  messages).

`tests/` exercises the library on concrete values. `app/` is a small
command-line front end that reads the CLI config and calls the library.
