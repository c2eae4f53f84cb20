# cloudflare-subdomain-updater

Keeps the A records of a Cloudflare zone in sync with a changing public address.

At every heartbeat the updater asks several providers for the public address,
decides whether it has to be published, brings the managed records up to date
(records that do not exist are created), and looks whether the authoritative
name servers show the result.

- `src/` is the library: every decision, stated as contracts and proved with
  Verus. A heartbeat is a dialogue: each function takes an answer from outside,
  brings the state up to date and says what to ask next. `laws.rs` states what
  holds of whole heartbeats, whatever is answered.
- `app/` is the program: configuration and state files, the network, the log.
- `tests/` runs the library on concrete values.

The library calls `chrono` for the seconds between two times, `reqwest` for the
text of a status code and `serde_json` for a member of a JSON object; the
functions that make these calls say what is taken from them on trust.
