# ghosty

Ghosty sits between the Riot Client and Riot's chat servers and changes how
you appear to your friends (online, offline, mobile), optionally adds a
helper friend you can chat with to change settings, and can accept League
ready checks for you.

The crate is a Verus library plus a thin program around it.

- `src/` is the verified library. Every decision the service makes is
  there, with its contract: the client-config proxy (request checks, the
  config rewrite, the answers), the chat session (what each read from the
  client or the server turns into), presence rewriting and the helper
  friend, the helper commands, launch arguments and install lookup, the
  League Client helpers (Riot IDs, op.gg links, the friends summary), the
  auto-accept monitor's steps, the stored settings and the control panel's
  state.
- `app/` is the program: sockets, TLS, HTTP, files, processes, the League
  Client API client, threads and the Tauri window. It reads and writes,
  hands the library plain values and performs what the library returns.
- `tests/` runs the library on concrete inputs.
