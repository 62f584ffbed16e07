# secrets-rs (verified)

A library for retrieving secrets named by URNs of the form
`urn:secrets-rs:<source_id>:<name>`, written in Verus. A secret shows a masked
value (`<urn> [UNBOUND]` or `<urn> [<type>:<size>]`) unless its value is asked
for explicitly.

Layout:

- `src/urn.rs` — URN parsing and text, with the round-trip laws.
- `src/source.rs` — the `Source` trait and the `SourceRegistry` map of source ids.
- `src/sources/` — the environment and file sources: what their answers are,
  given what the environment or the filesystem held. File names are resolved
  by POSIX path rules only (absolute means starting with `/`, and `/` joins a
  base directory and a name); Windows prefixes such as `C:\` and backslash
  separators are not supported.
- `src/secret.rs` — `Secret<T>`, `SecretValue` for `String`, `Vec<u8>` and
  `serde_json::Value`, masked values, and binding in two steps
  (`fetch_request`, then `complete_bind`).
- `src/bindable.rs` — `Bindable`, `bind_all`, and `collect_errors`.
- `src/error.rs`, `src/text.rs` — error types with their views; character helpers.
- `app/` — the unverified edge: reading environment variables and files,
  `Bind::bind` in one call, `Display`/`Debug`/serde for secrets, error messages.
