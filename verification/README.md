# yourcontrols

The verified core of a shared-cockpit system for a flight simulator: several
pilots fly one aircraft together, one of them in control at a time, over UDP
sessions that are either hosted by one of the pilots (reached directly or by
hole punching through a rendezvous server) or relayed by a cloud hosting
server.

`src/` is the library, checked by Verus:

- `digits`, `diff`, `gauge_events`, `var_reader`, `var_ids`: the gauge side —
  digit splitting for cockpit dials, change detection, event codes, and the
  reading and writing of simulator variables as little-endian bytes.
- `payloads`, `transfer`, `delivery`, `net_address`: the messages, how each
  travels, and the actions a session decides on.
- `client_transfer`, `server_transfer`, `handshake`, `retry`: the pilots' side
  of a session — joining, hole punching, heartbeats, control transfer.
- `hosted`, `rendezvous`, `hoster_state`, `hoster_rendezvous`,
  `single_server`, `clients`, `control`: the servers — sessions, rosters,
  control delegation, request limits.
- `session_control`, `app_model`: the application's decisions while a
  session runs.
- `laws`: properties that span several operations.

Calls into outside crates (`rand`, `semver`, `bimap`, `base64`, `byteorder`)
and the clock sit behind small trusted wrappers whose contracts say what the
library relies on.

`app/` is the program around the library: the UDP and TCP transports
(`laminar`, `zstd`, `rmp-serde`), the serde forms of the messages, and the
server loops. `tests/` holds the tests.
