# pcloud_relay

Public relay for pCloud personal storage devices: browsers and apps reach a
device at `/d/{device_id}/...`, and the relay forwards each request through a
WebSocket tunnel that the device keeps open.

- `src/` is the verified library (Verus): request paths, header filtering,
  body chunking and its limit, the pending-response table, the device
  registry, request ids and settings, each with its contract, and the laws
  that relate them.
- `app/` is the server around it: axum routes, the WebSocket tunnel, JSON
  (serde) forms of the messages, tokio channels and timeouts, environment.
- `tests/` runs the library on concrete values.
