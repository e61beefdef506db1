# darkdesk_api

The local control API of the DarkDesk remote desktop client and the messages
it sends to its plugin host, as a Verus-verified library.

- `src/` holds the logic with its contracts:
  - `text` — decimal and hex rendering, Unicode whitespace trimming,
    substring search, joining;
  - `json` — JSON values as plain data, member lookup, compact JSON text;
  - `handlers` — the response envelope, action routing, payload checks and
    every handler's decision, returned as effects plus a response;
  - `process` — which processes to end for a connection, and the
    connection report;
  - `messages` — the log and control messages and where they go;
  - `connection` — what one read on a control connection asks for;
  - `properties` — properties proved across these functions.
- `app/` is the I/O around it: the TCP listener, the sockets to the plugin
  host, the process table (`sysinfo`), JSON parsing (`serde_json`), and a
  `Host` trait for the surrounding program's configuration store, IPC and
  launcher.
- `tests/` runs the library on concrete inputs.
