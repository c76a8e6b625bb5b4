# observability_lib

Metrics, tracing and error tracking for HTTP services, with the decisions proved
in Verus: which metrics change, under which labels, and when.

- `src/` is the verified library. It performs no I/O and reads no clock: every
  function takes what happened (a response, a poll, a span, an event) with a
  reading of a monotonic clock in nanoseconds, and returns the metric updates to
  make.
- `app/` is an Axum server around it: it feeds the library and hands the updates
  to the `metrics` recorder.
- `tests/` runs the library.

| Module | What it decides |
| :--- | :--- |
| `service` | which service a route belongs to, and the route label of a request |
| `traffic` | HTTP, SSE or WebSocket; what a request reports over its life |
| `websocket` | what a WebSocket session reports |
| `connections` | the active gauge against all that is open |
| `spans` | which service a span belongs to; what spans and error events report |
| `tracking` | which results raise an error signal |
| `logging` | which events reach the log |
| `client` | what outbound requests, streams and awaited calls report |
| `setup` | histogram buckets and the catalogue of metrics |
| `llm`, `server` | the replies of the example server |
| `metric`, `clock`, `text` | updates, durations and text |

Durations are recorded in whole milliseconds, as the histogram buckets are.

What is taken on trust is marked `external_body`, `assume_specification` or
`external_type_specification` in the source: calls into `axum`,
`tracing-subscriber` and `rand`, an opaque value of `serde_json`, and two
conversions of the standard library.
