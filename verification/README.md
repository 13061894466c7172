# DevBit

The backend of DevBit: accounts, sessions, avatars and WebSocket presence. Its rules are a library
that is verified with Verus; the service around it is ordinary Rust.

## Layout

```text
src/        the library; verified, but for the small functions that call other crates
  text           trimming, splitting, decimal notation
  clock          points and spans of time
  address        IP and socket addresses
  headers        HTTP headers by name
  status         the statuses of refused requests
  crypto         hashes, Base64 and salts
  password       password hashes
  claims         what is read of a session token
  token          session tokens
  auth           who a request comes from, cookies, environments and secrets
  config         settings that are checked before startup
  account        registration, login, the current user, logout
  verification   verification codes
  avatar         uploads and what is served
  rate_limit     the sliding-window limiter and the client behind a proxy
  message        what clients and the server say to each other
  receipt        receipts for what was handed to connections
  outbound       queues and disconnect signals
  presence       the map from users to their connections
  ws             messages to users and announcements
  session        the life of one WebSocket connection
  server         routes, limits, health, security headers
  *_laws         what holds over many requests or events
tests/      tests of the library
app/        the service: HTTP, WebSocket, PostgreSQL, mail and files
```

Calls into other crates stand in `src/` behind small functions whose contracts say what is relied
on. Requests that wait for a database or a mail server are cut into steps: each step takes what was
answered and says what to do next.

## Running

The service needs PostgreSQL and the SQL migrations in `migrations/`.

| Variable | Default | Purpose |
| --- | --- | --- |
| `NODE_ENV` | unset | `development` or `test` locally, `production` in production |
| `BIND_ADDR` | `127.0.0.1:7878` | where the service listens |
| `DATABASE_URL` | `postgres://postgres:@localhost:5432/users` | the database |
| `JWT_SECRET` | a local default | mandatory in production and in release builds |
| `SMTP_USERNAME`, `SMTP_PASSWORD` | unset | the account that sends verification codes |
| `SMTP_SERVER`, `SMTP_PORT` | `smtp.qq.com`, `465` | the mail server |
| `RUST_LOG` | `info` | the tracing filter |
