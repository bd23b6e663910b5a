# open_live_ingest

Streams the capture devices of a venue machine into Open Live. A local Strom does the
media: capture, encode, mux, SRT. This project decides what Strom and Open Live are asked,
and says what their answers mean.

- `src/` is the library, verified with Verus: settings and their checks, the flows that
  are built for an input, which devices are streamed and on which ports, what a poll says
  about a feed, when a source in Open Live is written, the heartbeat, the status report,
  and the setup, with questions and without.
  - `src/gateway/` is the gateway with declared inputs, which is provisioned, supervised
    and registered unattended.
  - `src/gui/` is what the desktop window shows and does.
- `tests/` runs the library with its outside crates.
- `app/` is the program around it: the command line, HTTP, WebSocket, processes, files and
  the terminal. `app/main.rs` is the root; `app/desktop.rs` is the root of the desktop
  binary.

Fractions never enter the library as floating-point numbers: a rate is its bits, its sign,
and the digits that are shown of it.
