# chat_backend

The logic of a chat backend, verified with Verus: file storage rules (validation, object keys,
upload plans, access to friend files, file lists), WebRTC rooms (room tokens, passwords,
participants and signaling), TURN node coordination (node registry, shared-secret rotation,
time-limited ICE credentials) and the TURN agent's configuration, and the websocket connection
table with its notifications.

Layout:

- `src/` — the verified library. Each module states its behaviour in `requires`/`ensures`
  over spec functions; the public `law_*` proof functions state properties that span calls.
  Calls into outside crates (hashing, HMAC, base64, random numbers, the clock, UUIDs,
  concurrent maps and websocket channels) stand behind small trusted wrappers whose doc
  comments say what is assumed of them.
- `tests/` — tests of the library on concrete values.
- `app/` — the unverified shell: the TURN agent's `main`, HTTP and websocket handlers,
  database and object-store access, and the JSON forms of the library's types.
