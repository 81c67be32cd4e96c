# Georuggine

Trip tracking for one server and many clients. Clients register and log in over a
WebSocket, start trips, send positions, ask for statistics and write to the
server's operator. A simulator drives a vehicle over a road graph.

The library under `src/` holds everything that is decided or computed without
input or output, written and proved in Verus. The programs under `app/` do the
rest: they read and send, ask the database, look at the clock, and compute with
fractional numbers.

## The library

| module | what it is about |
|---|---|
| `message` | the messages of the protocol, and the rules for names, passwords and chat texts |
| `auth` | passwords, tokens, the rules of login and registration |
| `sessions`, `status`, `trips` | what the server keeps in memory |
| `server`, `connection` | the shared state, and one connection as a machine of events and actions |
| `guarantees`, `world`, `record` | what holds of one connection, of all of them together, and of the trips on record |
| `stats`, `calendar` | statistics over positions, dates and intervals |
| `client`, `admin` | the command lines of the client and of the operator |
| `sim` | the simulator, which asks its caller for the arithmetic |
| `cpu_log`, `config` | log lines and settings |
| `double`, `number`, `text`, `text_map` | numbers in floating point by their bits, decimal numbers, texts, maps keyed by texts |

A connection is told what happened and says what to do next; `connection::step` is
proved equal to the function `connection::on_event`, over which the laws in
`guarantees` and `world` are stated. The most telling of them: no user is ever
logged in on two connections, a request with a wrong token changes nothing, a login
that fails leaves everything as it was, and whoever is logged in on a connection has
every open trip closed when it ends, however it does, and can come back. (Whoever is
replaced by another login on the same connection can come back too, but keeps open
trips.)

## What is trusted

The hashes of `bcrypt`, the random identifiers of `uuid` and the decoding of UTF-8
in the standard library are called through five small wrappers in `auth` and
`connection`. Their doc comments say what is taken for granted of each.

## The programs

`georuggine` runs the server, `georuggine client` a client. The tables of the
database are in `app/schema.rs`, the binding of the simulator to JavaScript is in
`app/sim.rs`.
