# coding_plan_manager

The core of a desktop tool that puts several AI coding-plan upstreams (Anthropic- or
OpenAI-compatible endpoints) behind one local endpoint per *aggregator*, routes each request to
one bound plan, records every exchange and accounts token usage.

The library is written in Verus. Pure decisions (routing, usage parsing, validation, what is
stored of an exchange) have exact contracts. The database is reached through `sqlite::Db`, a
connection that keeps a ghost history of every statement sent through it (text, parameters,
rows read back). The functions that use it state that history: which queries they send and
that their result is the verified decoding of the rows read, and exactly which writes they
send (for example, that routing sends the pin, reset and current-plan writes of its decision,
and that a preview or a listing sends none). What SQLite stores and returns is not modelled.

- `strategy`: the routing strategies (threshold rotation, model match) as pure decisions over
  an aggregator's bindings, with their laws, and their application to the database.
- `usage`: token usage of JSON and server-sent-event responses, and the model an exchange
  names. Streams are counted incrementally over every forwarded chunk; the result does not
  depend on where the stream was split (for lines of at most `MAX_PENDING` bytes).
- `proxy`: the decisions of the forwarding proxy: client authentication, header filtering,
  upstream URL, body capture and capping (the stored copy of a stream is capped, its usage is
  counted over the whole stream), error replies, the records of exchanges.
- `db`: the SQLite schema and queries (plans, aggregators, bindings, messages, statistics, the
  trip meter), through `sqlite`, the trusted boundary to `rusqlite`.
- `commands`: the operations the front end invokes, with their validation and messages.
- `json`, `text`, `clock`, `token`: JSON documents as plain values, text helpers, local time,
  aggregator tokens.

`app/` holds the desktop shell (Tauri commands, the Axum servers, the tray), which only reads,
sends and calls the library.
