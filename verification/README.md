# smb-server

The decision-making core of an SMB2 file server, verified with Verus.

- `src/` is the library. It does no I/O: each module turns what was read or
  looked up into what to do or to answer next, and every function carries a
  contract that Verus proves. `reader_laws.rs` and `query_info_laws.rs` state
  what holds of a connection and of a QUERY_INFO answer as a whole.
- `app/` is the asynchronous code around it, on tokio: it reads the socket,
  waits for permits, runs dispatches in tasks and performs lookups, and asks
  the library what comes next.
- `tests/` runs the library on concrete bytes.

The reader of a connection admits up to 64 data frames at once. A frame that
sets up or tears down a connection, session or tree is a barrier: it waits for
everything in flight and runs alone. A closed writer stops admission at once,
and the reader returns only when nothing is in flight any more.
Each response is handed to the writer once and unchanged, on its own side of
every barrier; none is lost while the writer is there.
