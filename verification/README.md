# herdr_mirror

The verified core of a terminal mirror session. A server owns the terminals of a
session; a client shows all of them from local emulators that replay the
terminals' raw output, so scrolling, searching and redrawing cost no round trip.

`src/` is the library. Its functions carry contracts that Verus proves.

| Module | What it holds |
| --- | --- |
| `output_log` | the bounded replication log of a terminal |
| `local_mirror` | the replay of a log into an emulator |
| `replica`, `replica_laws` | the client's copy of the session's structure, and what events do to it |
| `projection`, `projection_laws`, `terminal_state` | the view that the renderer draws |
| `connection`, `connection_laws` | one data connection per terminal, one of them the writer |
| `control` | requests, replies and the structural event feed |
| `routing`, `scroll`, `pane` | where keys, mouse events and pastes go |
| `session` | what every event of the client loop changes and asks for |
| `pump` | the order of events and the end of the loop |
| `runtime` | who answers for a pane: a PTY of the server or a mirror |
| `cli`, `json` | the `herdr mirror <host>` launcher |
| `schema`, `protocol` | the records that are exchanged |
| `idmap`, `lists`, `text` | ordered maps by id, lists and strings |

What touches sockets, threads, processes, the clock or the host terminal stands in
`app/`: it performs the steps that the library names and hands the outcomes back.
The emulator, the key bindings, the renderer and the wire encoding belong to the
surrounding program and come in through traits.

`serde_json` is the one crate that the library calls; the three wrappers around it
are in `json`.
