# chatter

A WebSocket chat with rooms, accounts and history, written in Verus.

- `src/protocol/`: the messages, the rules that they keep, and their JSON text.
- `src/server/`: the server as a state machine: who is connected, who is logged
  in, who is in which room, what is sent to whom, the wait after failed
  attempts, the rate limit, and the rules for accounts and history.
- `src/client/`: the client as a state machine: what it knows, what it shows,
  what it sends, and how it connects again.
- `src/text.rs`, `src/list.rs`: texts and lists.
- `app/`: the program around the library: network, SQLite and the egui window.

Each `laws.rs`, and `src/protocol/roundtrip.rs`, states what holds across
several functions as public proof functions.

## Limits

| Field | Min | Max | Rules |
| ----- | --- | --- | ----- |
| Login | 2 bytes | 32 bytes (new) / 64 (stored) | ASCII alphanumeric + `_`, no reserved prefixes |
| Password | 4 bytes | 72 bytes | No NUL |
| Room name | 1 byte | 32 bytes (new) / 64 (stored) | ASCII alphanumeric + `_` + `-` |
| Message | 1 byte | 4096 bytes | No control characters (except `\n`, `\r`) |
| WebSocket payload | | 2 MB | Text frames only |

Every user is sent the list of rooms after login, and again when the first
message in a room brings it on offer.

A failed login or account attempt is followed by a wait for its IP address of
10 ms, doubled with each further failure up to 8 s. The client connects again
after 1 s, doubled with each further attempt up to 30 s.

## Settings of the server

The database is the file that `--db` names. `DB_PATH` only counts where `--db`
is not given, and `chatter.db` where neither is. Host and port are the other way
round: `CHATTER_HOST` and `CHATTER_PORT` count before `--host` and `--port`.
