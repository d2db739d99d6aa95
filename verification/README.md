# praxis_extproc

An Envoy [ExtProc] server that runs Praxis filter pipelines, with its
protocol logic written in Verus and proved against its contracts.

- `src/response.rs`: the ExtProc response messages, their builders, and
  body chunking at the 62 KiB boundary (with the laws that the chunks put
  back together give the body and that only the last chunk ends the stream).
- `src/server.rs`: the per-stream state machine: which incoming message
  triggers which pipeline phase, body accumulation under the 10 MiB limit,
  and the responses built from the pipeline's verdicts.
- `src/config.rs`: server defaults, filter chain checks and flattening.
- `src/tls.rs`: the TLS modes; certificate generation with `rcgen` and the
  `tonic` TLS settings.
- `src/error.rs`: the error type.
- `app/`: the gRPC service, the pipeline calls, configuration loading and
  the command line, around the library.

[ExtProc]: https://www.envoyproxy.io/docs/envoy/latest/configuration/http/http_filters/ext_proc_filter
