# converter

The verified core of a converter between the ETSI GS QKD 014 key-delivery API and
the Cisco SKIP key-provider API. Two converters, one beside each key provider,
announce to each other the keys they hand out, so that the SAE on the other side
can ask for the same keys.

- `src/` is the library, verified with Verus:
  - `converter/context.rs`: the converter's state (peers, the remote SAEs they
    serve, the key identifiers announced per SAE pair) and the laws that hold of it;
  - `converter.rs`: each ETSI 014 request as a sequence of steps between calls to
    the key provider (`handle_etsi_request`, `EncKeyJob`, `DecKeyJob`, `status_reply`);
  - `converter/server.rs`: admission of calls from a peer converter;
  - `etsi014.rs`: the SAE identity behind a client certificate and its admission;
  - `skip.rs`: the URIs asked of the key provider;
  - `config.rs`, `text.rs`, `collections.rs`, `status.rs`: supporting pieces.
- `app/` is the program around it: configuration files, TLS, the HTTP and gRPC
  servers and clients, and the loop that performs each step.
- `tests/` exercise the library on concrete values.
