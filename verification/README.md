# squeuelite

A gateway in front of one SQLite database. Many agents send write requests; one
writer executes them, one after the other. A request is a list of SQL statements
that become one transaction: all of them are committed, or none is.

- Commits are recorded and numbered.
- A request with an idempotency key is executed once. Sent again, it gets the
  response that was recorded in the same transaction as its statements.
- Requests with a single statement may share a transaction. Each runs in a
  savepoint of its own, so that one that fails leaves the others alone.
- Clients speak JSON-RPC 2.0, one request per line on a Unix domain socket, or
  one per HTTP call.

## Layout

`src/` is the library, verified with Verus.

| Module | What it holds |
| --- | --- |
| `writer`, `store`, `queue` | requests to transactions, the calls on SQLite, what is committed together |
| `script`, `ledger` | what the writer asks of SQLite, call by call, and what follows from it |
| `request`, `params`, `sql` | requests and responses, bound values, which statements are allowed |
| `json`, `jsonrpc`, `http`, `sidecar` | JSON values, the protocol, and what the two transports decide |
| `client`, `squeue` | what clients send and what they make of answers |
| `submission`, `stats`, `latency` | the way to the writer, counters, commit times |
| `config`, `args`, `error`, `text` | settings, program arguments, errors, texts |

What SQLite does with a statement is not modelled. The contracts of `writer` say
which calls are made and how each outcome is answered; `ledger` draws the
conclusions: a request is atomic, a batch isolates its requests, a recorded
request is not executed again.

`app/` is the program around the library: threads, sockets, HTTP and files.
`tests/` runs the library against real databases.
