# cuckoo

The core of a local API-debugging tool and MITM capture proxy, written in Verus: every
function in `src/` carries a contract that Verus proves.

## Layout

- `src/` — the verified library.
  - `text`, `lines`: character-level helpers (ASCII case, Unicode-whitespace trimming,
    decimal and hexadecimal numbers, line splitting).
  - `message`, `http1`, `chunked`: HTTP/1.1 messages, head parsing, body framing, the
    chunked-body decoder and normalized serialization.
  - `tls`, `connect`, `routing`: the SNI of a ClientHello, `CONNECT` targets, where a
    request goes upstream and the `Host` header that follows it.
  - `rules`: the interception rule engine (block, map local/remote, rewrite, delay,
    breakpoints) over rules ordered by sort key.
  - `flow`, `store`, `handler`, `aggregator`: captured flows, the bounded flow store, the
    handler's decisions for each exchange, and event batching.
  - `intercept`: the registry of exchanges held at a breakpoint.
  - `ca`, `authority`: PEM/Base64 encoding and the certificate authority (root CA and
    per-domain leaf certificates).
  - `api`, `session`, `cli`: the local API server's token checks and flow endpoints, the
    token and port files, and the command-line client's requests and reports.
  - `dto`, `executor`: request definitions and how an API request is built and reported.
  - `platform`, `rpc`: system proxy settings (`networksetup` plans and output parsing) and
    RPC route metadata.
- `tests/` — tests of the library, run against the real outside crates.
- `app/` — the I/O around the library: sockets, TLS, timers, files, processes, the HTTP
  client and JSON. It takes no decision of its own.

Outside crates (`rcgen`, `rustls`, `regex`, `dashmap`, `base64`, `ulid`, `chrono`, `rand`,
`tokio`'s one-shot channels, …) are called from `src/` through small trusted wrappers
whose contracts state what the crates document.
