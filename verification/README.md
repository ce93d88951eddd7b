# job_service

A job service with its HTTP middleware and two scaffolding tools, written in Verus.
The library in `src/` holds the service's rules and decisions, each with a contract
that Verus proves, and makes the computing calls into bcrypt, chrono, cron, uuid,
serde_json and jsonwebtoken behind stated wrappers; `app/` performs the I/O around it,
and holds the record access that is generic over sea_orm's traits.

## Layout

- `src/` — the verified library
  - `scheduler`, `cron`, `job`, `job_info`, `job_status`, `job_signal`, `health`:
    job registration, due times, the running set, health reports
  - `query_parser`, `params`, `crud`: list-query validation and plans, entity rules
  - `rbac`, `session`, `http`, `auth`, `json_scrub`: access control, sessions, request
    policies, password hashing and token claims, audit-body scrubbing
  - `pdf`, `storage`, `email`, `connections`, `config`: the PDF circuit breaker, storage
    choice, broker and database rules, settings
  - `generator`, `scaffold`, `storage_scaffold`, `text_edit`: the CRUD generator's texts,
    the file edits of both scaffolding tools, and the text primitives they rest on
  - `errors`, `numbers`, `text`: errors, number parsing and printing, text helpers
- `tests/` — tests on concrete values
- `app/` — the executable: configuration from the environment, database, Redis,
  RabbitMQ, SMTP, the PDF service, the axum middleware stack, the scheduler loop, the
  `generate` and `storage-scaffold` commands, and the sea_orm entities, schema migration
  and generic record access, which follow the library's listing plans and error rules

Laws that span several functions are public proof functions named `law_*`.
