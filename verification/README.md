# clipboard_sync

The server side of a clipboard sharing service. Clients connect over TCP,
form pair groups (one device creates a group and gets a six-digit code,
others join with the code), and every clipboard change of a device is
relayed to the rest of its group.

Layout:

- `src/` — the verified library (Verus):
  - `message.rs`: peers, devices, messages, and the wire frame (type byte,
    big-endian `i32` length, JSON body), with its round-trip laws;
  - `cursor.rs`: the read cursor that frames are checked and decoded with;
  - `channel_manage.rs`: the registry of connections and pair groups;
  - `handler.rs`: the per-connection session as a state machine from event
    to next state and actions; `session_laws.rs` states what every step keeps;
  - `limiter.rs`: banned IPs and the per-IP connection limit;
  - `utils.rs`: pair codes and identifiers; `addr_text.rs`: address text;
  - `assoc.rs`: association lists read as maps; `bindings.rs`: the calls
    into `bytes`, `tokio` and `rand`.
- `app/` — the server binary: sockets, timers, channels, JSON, logging.
- `tests/` — tests of the library.
