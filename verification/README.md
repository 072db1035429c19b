# rapsqlite

The decision logic of an asynchronous SQLite connection for Python, verified
with Verus.

The library under `src/` computes on plain values. What needs a database
handle, the clock or the Python interpreter is described as a *process*: a
process says which call to make, is told what the call brought back, and says
what follows, until it has a result. `src/process.rs` holds the vocabulary
(`outset`, `next`, `possible`, `reached`); each process states its steps
exactly, and the `law_*` functions beside it state what holds of every course
that it can take.

| Modules | What they decide |
| --- | --- |
| `text`, `floats`, `codes`, `failure`, `error` | SQL text, IEEE bits, result codes, the errors and their wording |
| `statement`, `batch`, `scalar` | one statement, many parameter sets and one value on a raw handle |
| `routing`, `requests`, `operation`, `many`, `fetch`, `cursor` | which connection answers a request, and what is made of its result |
| `connection`, `transaction`, `pragmas`, `settings`, `interrupt` | a connection from its making to its closing, transactions, what can be set, interrupting |
| `callbacks`, `registry`, `handlers`, `trampolines`, `invocation`, `extensions` | registering functions, aggregates, collations and handlers, and running them |
| `conversion`, `schema`, `dump`, `replay`, `cache`, `backup` | values and rows, descriptions of the schema, dumps and what they recreate, cache tables, backups |

`app/` is the Python extension module around the library. It owns the pool of
database connections and the Python objects and makes the calls.

`tests/` runs the library from outside, partly against a real SQLite database.
