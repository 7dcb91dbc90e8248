# proxy_server

A proxy that carries TCP connections over KCP or QUIC. A proxy client listens on
TCP and opens a stream to a proxy server for each connection; the server
forwards the stream to a TCP address, or echoes it. The transport is one of

- `kcp-tokio`: KCP over UDP (the default),
- `quinn`: QUIC over UDP with TLS,
- `slipstream-picoquic`: QUIC over UDP by the picoquic C library.

## Layout

- `src/` is the library, written in Verus: its functions are proved against their
  contracts, but for the items named below. It computes and decides; it does no input or output. Public proof
  functions whose names begin with `law_` state what holds of several functions
  together, such as that bytes come out in the order in which they went in.
- `app/` is the program around it: sockets, tasks, threads, signals, files, and
  the calls into picoquic. It has three subcommands, `server`, `client` and
  `load-test`.
- `tests/` holds the tests of the library.

## What is not proved

The library calls rcgen, rustls, quinn, kcp-tokio and a few functions of the
standard library. What it takes for granted of them is written down at each of
these items, in its contract and its doc comment. They are in `src/quic.rs`,
`src/kcp.rs`, `src/text.rs` and `src/picoquic.rs`.
