# menhera-ddns

A small HTTP-to-DNS dynamic update service. A client reserves one hostname,
receives a bearer token, and later updates or deletes that hostname with it,
without holding a DNS update key. The service speaks DNS queries, RFC 2136
Dynamic Update and HMAC-SHA256 TSIG with the authoritative server.

The rules of the service are a library verified with Verus; the program around
it reads the settings, talks to the DNS server and serves HTTP.

## Layout

- `src/config.rs`, `src/credential.rs`, `src/name.rs`, `src/text.rs`: the
  settings, tokens, and the names derived from them.
- `src/address.rs`: IP addresses as text.
- `src/keyfile.rs`: the reader of the TSIG key file.
- `src/record.rs`, `src/message.rs`: resource records and the three updates that
  the service sends.
- `src/exchange.rs`, `src/error.rs`, `src/reply.rs`: what comes back from the DNS
  server and what the client is told.
- `src/session.rs`: a request as a series of steps: ask, send, respond.
- `src/server.rs`: a model of the authoritative server.
- `src/laws.rs`, `src/keyfile_laws.rs`: what holds of the service as a whole.
- `app/`: the program.

## Configuration

| Variable | Required | Description |
| --- | --- | --- |
| `SERVER_SECRET` | yes | Secret used to derive credential record names. |
| `DDNS_ZONE` | yes | Managed DNS zone, for example `ddns.example.net.` |
| `UPDATE_KEY_PATH` | yes | Path to the HMAC-SHA256 TSIG key file. |
| `SERVER_ADDR` | no | Address of the DNS server. Defaults to `127.0.0.1`. |
| `LISTEN_ADDR` | no | HTTP listen socket. Defaults to `127.0.0.1:3001`. |

## HTTP API

All endpoints use `POST` and return JSON. Successful responses contain
`"error": null`; failures contain a string in `"error"`.

- `/create?hostname=laptop` reserves a hostname and returns its `token`.
- `/update?token=...` with the header `X-Real-IP` replaces the hostname's A or
  AAAA records by that address.
- `/delete?token=...` removes the hostname; the token is of no use afterwards.
