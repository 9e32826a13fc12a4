# yadgar-dial

How a service reaches another service: client-side gRPC balancing over a headless
Service, as a verified library.

A headless Service resolves to the address of every pod, and the client balances
across them itself. It has to resolve again and again, give its balancer what
changed, and never leave it with nothing to dial.

## Layout

- `src/` is the library. It decides, and touches nothing outside: where a dial needs
  a file, an answer of the resolver or a change to be delivered, it asks for it in
  its state and goes on with what came of it.
  - `address`, `diff`: socket addresses, ordered sets of them, and the changes
    between two resolutions.
  - `endpoint`, `tls`: what is dialled, how it is encrypted, and what it is verified
    against.
  - `connect`, `resolve`: the dial at the start of a process, and the loop that keeps
    it up to date.
  - `error`, `messages`: what an operator is told.
  - `laws`: what holds of all this together, as proof functions.
  - `transport`, `pki`, `system`: what is taken on trust from `tonic`, from `rustls`
    and `rustls-pki-types`, and from the standard library.
- `app/` runs the library in a process: files, DNS, the channel, the task, the gauge
  and the log.
- `tests/` run the library on concrete values, with the real crates behind it.

## Using it

```rust
let channel = connect("task-db", 50051).await?;

let tls = TlsOptions::new("/etc/tls/ca.crt");
let channel = connect_tls("task-db", 50051, &tls).await?;
```

The callee's Service must be headless. Against a Service with a virtual IP this still
works, and balances nothing.

## Bounds

| bound                 | what it catches                                                     |
| --------------------- | ------------------------------------------------------------------- |
| resolve timeout (5s)  | a resolver that stopped answering                                   |
| connect timeout (2s)  | a TCP connect, or a TLS handshake, that does not complete           |
| HTTP/2 keepalive      | a peer that vanished without closing its connection                 |
| request timeout (30s) | a peer that is alive, connected, answering pings, and never replies |

## What can fail

An upstream that is not there yet is no failure: the balancer holds its name until an
address resolves. Once the balancer has had an address it is never left without one:
an answer without addresses, or of which nothing can be dialled, takes nothing away.

A mistake in the configuration is a failure, before a channel exists: a CA bundle that
cannot be read, is not PEM, holds no certificate or anchors no trust, a client
certificate or key that is not there, a host that forms no URI authority or that TLS
cannot verify. None of them leads to a connection in cleartext.
