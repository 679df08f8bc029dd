# rjango

A web framework core in the manner of Django, written in Verus: the library
in `src/` is verified, its behaviour stated in `requires`/`ensures`
contracts over mathematical models (sequences, maps, spec functions).

- `src/http.rs`, `src/middleware/`: requests, responses, header and query
  dictionaries, and the request/response middleware.
- `src/forms/`: form fields, widgets, validation, forms, formsets and model
  forms.
- `src/orm/`: fields, lookups, expressions, query building, models.
- `src/migrations/`: operations, the schema change detector and the runner.
- `src/signing.rs`, `src/cache.rs`, `src/sessions.rs`, `src/messages.rs`,
  `src/json.rs`, `src/serializers.rs`, `src/paginator.rs` and the other core
  modules.

Calls into outside crates (hashing, base64, zlib, regular expressions, JSON
and TOML parsing) stand behind small trusted wrappers whose doc comments say
what is assumed of them.

`app/` holds what is not verified: the process-wide registries, the clock,
the environment, the file system, the database, `serde_json` conversions and
floating-point checks.

`tests/` holds the tests.
