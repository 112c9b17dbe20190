# siren

A tunnel for VLESS, Trojan and Shadowsocks clients over WebSockets, with a core that
is verified with Verus against the contracts that it states.

- `src/` is the verified core. It decides: what a request's path asks for
  (`route`, `patterns`), what the client's links look like (`link`), which
  protocol a client speaks and what its request says (`proxy::conn`, `proxy::vless`,
  `proxy::trojan`, `proxy::shadowsocks`), which way its traffic takes and how a SOCKS5
  or HTTP proxy is asked for it (`proxy::outbound`, `proxy::socks5`,
  `proxy::http_connect`), and what is counted (`stats_do`). It performs no I/O:
  its functions say what to do next, and are told how it ended.
- `src/codec.rs`, `src/patterns.rs`, `src/proxy/buffer.rs`, and a few functions of
  `src/route.rs`, `src/stats_do.rs` and `src/proxy/http_connect.rs` call other crates. Their contracts
  are believed, and say which call they stand for.
- `app/` is the worker around the core: sockets, storage, routing of requests.
  The crate that embeds it supplies address parsing, DNS over HTTPS and VMess, and
  exports the worker's events.
- `tests/` runs the core on concrete values.

Public proof functions whose names begin with `law_` state what holds across
functions, for example that a client with another user id is refused before
anything else happens.
