# iot_sim

A simulator of industrial IoT telemetry: configured entities carry sensors
that physical models sample at their own cadences; anomalies can be injected
into the readings; the readings go to Prometheus, Kafka, or a historical
Parquet dataset in S3-compatible storage.

`src/` is the verified core, written in Verus:

- `validation` — the configuration as its rules read it, and the rules: the
  first rule a configuration breaks, with its exact message, and what a
  configuration that passes guarantees.
- `config`, `plan` — defaults, sensor metric names, sensor expansion, the
  services and exporters a configuration needs, the command line.
- `schedule` — per-sensor cadences with catch-up instead of bursts, and the
  scheduler's next step in real-time and historical runs.
- `lifecycle`, `injection`, `anomaly`, `airlock` — anomaly event lifecycles
  (warm-up, activation, duration, cooldown), the profiles each stage runs,
  batch-cooling timing, and the per-cycle air-lock anomaly controller.
- `rack`, `waveform`, `weather`, `electrical` — calendars, waveform
  positions, storm phases and the latched safety relay.
- `export`, `time`, `text` — dataset object keys and row groups, producer
  settings, RFC 3339 instants through `chrono`.

`app/` is the program around it: configuration loading, the floating-point
physical models, the exporters' I/O and the asynchronous runtime.
