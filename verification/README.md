# clearglass

A small authentication service for a forwarding proxy. It validates bearer tokens
against the keys that their issuer publishes, and checks that they carry the OAuth2
scopes a request needs.

The proxy forwards every inbound request to `GET /validate` with the original
`Authorization` header and with `X-Forwarded-Method` and `X-Forwarded-Uri`. The
answer is

- `200` where the token is valid and satisfies the scope requirements,
- `401` where the token is missing or not valid,
- `403` where the token is valid but lacks the required scopes.

Scope requirements come from two sources: the `scope` parameters of the forwarding
URL, one of which the token must carry verbatim, and a static route map, whose first
rule for the method and path of the request decides.

## Layout

- `src/` is the logic, verified with Verus. Each function states in its contract what
  it returns; the proof functions named `law_..` state what holds of the service as a
  whole.
- `app/` is the program around it: environment, files, fetching keys, listening.
- `tests/` runs the library with real keys and tokens.

What is not proved is what the crates `jsonwebtoken`, `serde_json` and `http` do. The
functions that call them are marked `external_body`, and their doc comments say what
their contracts claim.

## Configuration

| Variable         | Required | Default | Purpose                                                   |
|------------------|----------|---------|-----------------------------------------------------------|
| `JWKS_URL`       | yes      |         | where the issuer publishes its keys                       |
| `PORT`           | no       | `8080`  | port to listen on                                         |
| `ROUTES_FILE`    | no       |         | route map (YAML); without it the query alone decides      |
| `ENFORCE_ROUTES` | no       | `false` | `true`: what the route map denies is refused, not reported |
