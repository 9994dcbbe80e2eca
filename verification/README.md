# tunnel

A peer-to-peer HTTP tunnel over a WebRTC data channel: `tunnel serve` exposes
an upstream HTTP service, `tunnel proxy` offers a local HTTP endpoint whose
requests travel through the tunnel.

Layout:

- `src/` — the verified library (Verus): the binary frame format and its
  encoder/decoder, HELLO/AGREE negotiation, the serving side's table of
  requests in flight, the proxy side's routing of response frames and its
  table of waiting streams and its answers to refused requests, upstream URL construction and hop-by-hop
  header filtering, role selection and ICE candidate handling during
  signalling, ICE server configuration and the reconnect backoff.
- `app/` — the program around it: command-line parsing, JSON forms of the
  messages, the WebSocket signalling client, WebRTC setup, the HTTP server
  and client, and the async loops that carry out what the library decides.
- `tests/` — tests of the library on concrete values.
