# ccm-dsm

Key management for encrypted container images with Fortanix DSM, verified with Verus.

- An image layer's key is wrapped by a key encryption key (KEK) that never leaves DSM. `wrap`
  decides which KEK wraps it and what is asked of DSM in which order; `key_provider` reads the
  requests; `annotation` writes what the layer carries.
- On the node, `ccm_kbc` reads a resource URI and the annotation back into a request to DSM.
- The credential for that comes from attestation; `ccm_as` decides when it is asked for anew.
- `laws` states what holds of these parts together.

`src/` is the verified library. What it takes from other crates is declared there with a contract
that is believed and not proved; the doc comment of each such item says what. `app/` is the I/O
around the library: gRPC, DSM's REST API, files and environment variables.
