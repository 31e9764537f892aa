# raftlike

A small Raft-style replicated key-value store: a cluster of nodes that elect a
leader, replicate a log of `set key=value` commands, and answer reads from the
applied log; plus a command-line client.

- `src/` is the verified library. `node` holds a node's state and every
  transition, each stated as a spec function over `NodeView` and proved for
  the executable method; `laws` proves what holds across transitions (terms
  never go down; a vote, once given, stays for the rest of its term; appends
  are idempotent; a follower holding the leader's log up to a peer's next
  index catches up to the leader's log from one request; a write held by a
  majority is committed and read back on the leader, and one replicated with
  a covering commit index on a follower;
  election counts and leadership change only as they should; restarts; peer
  lists round-trip); `server`
  answers each endpoint; `election` makes the election and heartbeat loops'
  decisions; `client` makes the command-line client's decisions and output;
  `cli` parses the peer list; `text` holds the string helpers; `platform`
  names the calls into the clock and the random number generator.
- `app/` is the program around it: HTTP endpoints (axum), requests to peers
  (reqwest), the timer loops (tokio), persistence to `./states/` (serde_json),
  argument parsing (clap) and the client's process control. Run
  `raftlike --id A --port 8080 --peers localhost:8081,localhost:8082` for a
  node, and `raftlike put|get|status|kill|restart ...` for the client.
- `tests/` exercises the library on concrete values.
