# lustrefs_exporter

A Prometheus exporter for Lustre, as a verified library and a thin server.

- `src/` is verified with Verus. It parses `lctl get_param` output into
  records (`lctl`, `llite`, `osc`, `mdc`, `exports`, `stats`, `rpc_stats`,
  `io_latency`, `extents`, `lockless`, `key_value`, `time`, `rows`, `text`),
  splits the output into
  one block per parameter as it is read (`stream`), and counts the records
  into metric families (`client`, `client_target`, `controller`,
  `llite_metrics`, `histogram`, `metrics`). The families of counters and
  gauges are prometheus_client's (`family`); the contracts speak of what
  each label set holds. `registration` decides under which name and help
  each client family is registered.
- `app/` runs the commands, drives the split from a reader, registers the
  families under their names and serves `/metrics` with axum.
- `tests/` exercises the parsers, the split and the metric builders.

`--aggregate-client-metrics` corresponds to `ClientLabels::ByFilesystem`:
the osc and mdc series of the targets of one filesystem are summed into one
series labelled `fs`; `client::aggregated_series_sum_their_targets` states
what such a series holds.
