# starla

The logic of a RIPE Atlas software probe, verified with Verus: what the
probe reads from its controller, what it decides, and what it reports.

## Layout

- `src/` is the verified library. Every function there carries a contract
  that Verus proves; the few calls into other crates (`hickory-proto`,
  `base64`, `sha2`, `chrono`, `rand`, `pnet`, `serde_json`, `hostname`,
  `russh`) go through small trusted wrappers whose contracts say what those
  crates promise; `russh` supplies the probe's SSH key (generated, read, written
  out) and the host keys that servers present.
  - Controller side: `command` and `telnet` (command lines and CRONLINEs),
    `session` (the telnet login), `ssh` (INIT answers, retries, key texts),
    `hostkeys` (known hosts, trust on first use), `tunnel` (forwarded
    connections and remote commands), `probe` (what commands and INIT
    answers lead to).
  - Measurements: `ping`, `traceroute`, `icmp`, `dns` and `resolver`,
    `ntp`, `tls`, `http`.
  - Storage: `keys` (order-preserving key encoding), `store` (records, the
    upload queue, the scheduler table), `queries`, `cleanup`, `results`
    (the bounded result queue).
  - Setup and tray: `paths`, `config`, `tray`, `daemon`, `types`, `text`,
    `ipaddr`, `json`.
- `tests/` runs the library on concrete values.
- `app/` is the program around the library: command-line handling, files,
  sockets, clocks, the service manager, and the SSH sessions with the
  registration servers and the controller (`app/controller.rs`), whose
  every decision is the library's.
