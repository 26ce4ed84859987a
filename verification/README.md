# rustunnel

A self-hosted TCP/HTTP tunnel, similar to ngrok but running on your own VPS.
Local services are exposed to the internet through a persistent WebSocket
control connection:

```
[local service] <──> [client] <──WS──> [server on VPS] <──> [internet]
```

TCP/UDP tunnels bind a port on the VPS; HTTP tunnels get a URL
`{http_base_url}/t/{uuid}` that the server's HTTP proxy forwards through the
tunnel.

## Layout

- `src/` — the library, verified with Verus: control messages (`proto`),
  configuration (`client_config`, `server_config`), the handshake on both sides
  (`handshake`), per-connection stream tables and session state (`streams`,
  `state`), message handling on a running session (`session`), the UUID
  endpoint registry (`http_registry`), the HTTP proxy's routing and framing
  (`http_proxy`), reconnection backoff and assignment reports (`client`), and the
  base64 form of payloads (`bytes_base64`).
- `app/` — the program around it: command line, configuration files, JSON
  encoding of messages, WebSocket and TCP I/O, the axum HTTP server.
- `tests/` — tests of the library.

## Running

```
rustunnel server --config config/server.toml
rustunnel client --config config/client.toml
```

Server configuration:

```toml
control_port           = 7000
auth_token             = "change-me-secret"
max_streams            = 1024
http_proxy_port        = 9000
http_base_url          = "https://tunnel.yourdomain.com"
http_idle_timeout_secs = 300
```

Client configuration:

```toml
ws_url     = "wss://tunnel.yourdomain.com/tunnel"
auth_token = "change-me-secret"

[[tunnel]]
name        = "minecraft"
remote_port = 25565
local_port  = 25565
protocol    = "tcp"

[[tunnel]]
name       = "api"
local_port = 3000
protocol   = "http"
```
