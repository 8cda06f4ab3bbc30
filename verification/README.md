# edgerouter_scripts

Maintenance logic for a Ubiquiti EdgeRouter with several WAN links, verified
with Verus.

- `src/` — the verified library:
  - `config` — WAN interfaces in preference order, helper scripts per WAN kind,
    default delays, validation of a parsed configuration.
  - `ip_test` — which WAN the NAT public address belongs to, whether a better
    WAN is up, and the parsing of `ip addr show` / NAT translation output.
  - `auto_reset` — decisions of the periodic repair run: preference target,
    ping-failure escalation, missing-address resets, reset order, status line.
  - `remote_commands` — the allowlisted webhook commands.
  - `reset_logs` — which log lines to upload, the bookmark, the JSON body.
  - `timestamp` — local time through chrono.
  - `text` — std string functions and serde_json's string encoder, with their
    results stated over `Seq<char>`.
- `app/` — the three programs (`auto-reset-pppoe`, `upload-reset-logs`,
  `execute-remote-commands`, chosen by the binary's name): reading
  `config.toml`, running commands, files, HTTP.
- `tests/` — tests of the library.
