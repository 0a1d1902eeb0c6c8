# pretix_webhook

Receive and process [pretix webhooks](https://docs.pretix.eu/dev/api/webhooks.html),
with the request-handling logic verified by Verus.

## Layout

- `src/` is the verified library:
  - `path.rs`: the static path grammar for webhook routes (absolute paths,
    prefixes, relative paths), their joining, and a registry that refuses a
    path registered twice.
  - `json.rs`, `events.rs`: the typed payloads read from a webhook JSON body,
    their identity accessors, and the members they serialize back to.
  - `auth.rs`: HTTP Basic credentials kept as SHA-256 digests and checked
    against the `Authorization` header.
  - `builder.rs`, `config.rs`: the policy of an endpoint (organizer and event
    filters, credentials, body limit), in two flavours.
  - `service.rs`: what each request is answered with before and after the
    handler runs.
  - `endpoint.rs`: operator settings (flags, environment values, the TOML
    document) resolved into validated endpoints, with every problem of a
    document reported at once.
  - `startup.rs`: the routes and warnings reported when the receiver starts.
  - `text.rs`: small string helpers.
- `app/` is the command-line receiver around it: argument and environment
  reading, the TOML file, the Tower service and Axum routers, and logging.
- `tests/` exercises the library on concrete inputs.

Outside crates are reached only through a few trusted wrappers: SHA-256
(`sha2`), base64 decoding (`base64`), constant-time comparison (`subtle`),
reading a JSON object (`serde_json`), and `{:?}` rendering of strings and
characters.
