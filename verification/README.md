# OmniPaxos KV

A key-value store that a cluster of servers replicates through an OmniPaxos log, an HTTP gateway
to it, and a Maelstrom node that drives it with `lin-kv` workloads. The decisions of all three are
a library verified with Verus; the programs around it do the I/O.

```text
Maelstrom (lin-kv)
   |  stdin/stdout JSON
maelstrom_node
   |  HTTP
shim
   |  TCP + bincode
server <--> server <--> server
```

## Library

| Module | What it holds |
| --- | --- |
| `kv`, `messages` | commands, and what clients, servers and peers say to each other |
| `database` | the state machine: a map from keys to values |
| `server` | a replica: applies the decided log, answers the commands that came in through it |
| `network`, `link`, `connection` | which links a server has, how they are opened, lost and used |
| `shim` | the gateway: which request waits for which answer, and the HTTP replies |
| `maelstrom` | the node: what each request asks of the gateway, and the replies |
| `json`, `url`, `text`, `config` | JSON values, path segments, numbers as text, settings |

The public proof functions named `law_..` state what holds of the library as a whole: that a read
is answered with what the last write before it in the log left, that replicas in step with the log
agree, that an answer reaches the request that waits for it, that a request without an answer is
reported as one that may have taken place, and so on.

Functions marked `external_body` are the boundary: each makes one call into the standard library,
`serde_json`, `urlencoding` or `tokio`, and its doc comment says what is taken for granted of it.
The private modules `outbox`, `deliveries` and `endings` hold those that send through `tokio` or
end its tasks, each with a record of what was sent or ended that nothing else writes.

## Programs

`app/` holds one program with three modes:

- `server <config.json>`: a server of the cluster. Its log is kept below `OMNIPAXOS_STORAGE_PATH`
  (default `/tmp/omnipaxos`).
- `shim`: the gateway, set up by `SHIM_SERVER_ID`, `SHIM_SERVER_ADDRESS`, `SHIM_BIND_ADDRESS` and
  `SHIM_TIMEOUT_MS`.
- `maelstrom_node`: a Maelstrom node, set up by `SHIM_URL` and `MAELSTROM_SHIM_TIMEOUT_MS`.
