# lazyifconfig

A terminal view of local network state: interfaces, subnets, routes,
connections, listening ports and a timeline of network events, with a set
of network tools (DNS, WHOIS/RDAP, IP information, TLS inspection, ping,
traceroute) that also run from the command line.

## Layout

- `src/` is the library, verified with Verus. Every parser, every rule and
  every piece of screen text carries a contract stated over mathematical
  models (`Seq`, `Map`, `Option` of views):
  - `collector/`: parsers of `ifconfig`/`ip`/`ipconfig`, `netstat`, `ss`,
    `lsof`, `/proc` and `vm_stat` output, and the assembly of one snapshot
    from the outputs of one round of commands;
  - `app.rs`: the application state (snapshots, timeline, traffic history,
    navigation rows, raw-output search, updater state);
  - `keys.rs`: what each key does to that state;
  - `screen.rs`, `panes.rs`, `view.rs`, `raw_view.rs`: the text of the
    screen, the raw-output viewer included;
  - `route_inspector/`: route diagnostics, VPN names and the path graph;
  - `tools/`: input validation and result building of the network tools,
    the TLS inspector's certificate fields (read with x509-parser) included;
  - `update.rs`, `updater.rs`: release selection and the update workflow;
  - `net.rs`, `text.rs`: address parsing and string helpers.
- `app/` is the program around the library: the terminal loop (ratatui and
  crossterm), running system commands, background work on tokio, JSON
  decoding with serde, the TLS handshake itself with rustls, and self-update I/O.
- `tests/` exercises the library on concrete inputs.
