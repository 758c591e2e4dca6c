# tunnel

A self-hosted HTTP tunnel (an ngrok alternative): a client keeps one TLS
connection to a server, and the server multiplexes visitor requests over it.

Frames on that connection are

```
[version: u8] [stream_id: u32 BE] [type: u8] [payload_len: u32 BE] [payload]
```

## Layout

- `src/` — the library, verified with Verus:
  - `types.rs` message kinds, frames, payloads, protocol errors;
  - `buffers.rs` the `bytes` containers frames travel in;
  - `codec.rs` encoding and decoding of frames, with the round-trip laws;
  - `session.rs` what client and server do with the frames they read;
  - `registry.rs` the server's table of tunnels by subdomain;
  - `streams.rs` the requests of a tunnel waiting for their answers;
  - `http.rs` routing by host name, the request replayed against the local
    server and the reading of its answer;
  - `json.rs` the JSON bodies of requests and answers carried in frames;
  - `tls.rs` the listener's certificates and key, from PEM files or
    self-signed;
  - `names.rs` random subdomains and tunnel ids; `dashboard.rs` the status
    page; `text.rs` string helpers.
- `app/` — the programs around it (CLI, file reads, sockets, the TLS
  handshake, async tasks, serde payloads):
  the client when started as `tunnel`, the server as `tunnel-server`.
- `tests/` — tests of the library.
