# hermod

Trace routing for a node and per-node state for the tracer it reports to.

- `src/` is the verified library: per-namespace configuration lookup, the
  dispatcher's decisions (severity filter, backend routing, default backends,
  trace-object assembly), the datapoint store, stdout line rendering, the
  metric cache, slugs and the tracer's ordered node table.
- `app/` is the runtime around it: the async `Backend` trait and its
  implementations, the floating-point token-bucket rate limiter, Prometheus
  metric updates and the lock-protected tracer state.
