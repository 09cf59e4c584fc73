# sysinfo_telemetry

A Windows telemetry agent: it collects CPU, GPU, memory, storage, network,
service, session, event-log and update information, serves it over an HTTP
API, and writes snapshots to InfluxDB in line protocol.

## Layout

- `src/` is the verified library. Every function there carries a contract
  that Verus proves:
  - `text` — character-level text handling (trimming, lines, words, decimal
    numbers, `u32` parsing, joining) with its model over `Seq<char>`;
  - `json` — the JSON documents that PowerShell returns, and the one call
    into `serde_json` that parses them;
  - `table` — a small map keyed by text, with its invariant;
  - `cache` — a value with a time-to-live;
  - `models` — the records the API reports;
  - `collectors` — the parsing and decisions of each collector (PowerShell
    scripts and their output, `quser` output, link speeds, disk I/O,
    traffic rates, the collector registry);
  - `api` — API-key authorisation, CORS and the health report;
  - `persistence::influxdb` — escaping and the line-protocol encoding of
    snapshots, and the outcome of a write;
  - `platform::windows` — reading values out of WMI query rows.
- `app/` is the program around it: configuration, the HTTP server, the
  collectors' calls into `sysinfo`, NVML, WMI and PowerShell, floating-point
  metrics, and the InfluxDB client.
- `tests/` runs the library on concrete values.
