# p2p_ledger

A small proof-of-authority ledger node, verified with Verus.

Nodes authenticate each other with an Ed25519 challenge-response handshake,
exchange line-framed JSON messages over TCP, gossip signed transactions into a
bounded mempool, and a listening node produces a signed block every 30-second
slot (32 slots per epoch, with epoch-based finality). A small HTTP interface
(`127.0.0.1:9000/api/...`) submits transactions and reports the mempool, the
recent blocks, transaction lookups and receipts.

```
cargo run -- listen --port 8000 --name Node1
cargo run -- connect --addr 127.0.0.1 --port 8000 --name Node2
curl -s -X POST http://127.0.0.1:9000/api/tx -H 'content-type: application/json' \
     -d '{"message":"hello-from-curl"}'
curl -s http://127.0.0.1:9000/api/debug
```

Layout:

- `src/` — the verified library: transactions and their canonical bytes
  (`tx`), the mempool (`mempool`), slot and epoch arithmetic (`clock`), block
  assembly, header hashes and Merkle roots (`chain`), node identities
  (`crypto`), the handshake (`handshake`), and the decisions of a listening
  node (`node`) and of a connecting node (`client`). `primitives` holds the
  trusted boundary to `sha2`, `hex`, `base64`, `ed25519-dalek`, `rand` and the
  system clock.
- `app/` — the binary: command line, sockets, timers, HTTP routes and JSON
  encoding around the library.
- `tests/` — tests of the library on concrete values.
