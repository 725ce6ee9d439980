# shuru

The logic of a microVM sandbox, verified with Verus: planning a run from flags and a
project's configuration, describing its machine, talking to its guest, serving a JSON-RPC
session, forwarding ports and tunnels, and the network stack between the guest and a
proxy that keeps secrets out of the guest.

- `src/` is the library. Every function states in its contract what it returns or
  changes; the `law_` functions state what holds of the library as a whole. The calls into
  `smoltcp`, `lru`, `base64`, `blake3` and `kulfi-id52` stand behind small functions whose
  doc comments say what is trusted of them.
- `tests/` runs the library, with the real crates linked.
- `app/` is the command line: flags, files, sockets, threads and terminals.
