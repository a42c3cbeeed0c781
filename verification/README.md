# prek_sarif

The SARIF handling of the prek hook runner, written in Verus.

- `src/` is the verified library: resolving how a hook produces SARIF
  (`strategy`, `hook`, `env`), gathering SARIF runs into a report (`report`),
  writing the findings of built-in hooks as a SARIF run (`diagnostic`), the
  JSON document model (`json`), text helpers (`text`), errors (`error`) and
  the laws that relate these functions (`laws`).
- `app/` is the unverified edge: YAML parsing and JSON printing through
  serde, running adapter programs with tokio, and writing embedded adaptors
  to disk.  The JSON stream that hooks print is parsed in `src/report.rs`,
  behind a trusted wrapper of serde_json.
- `tests/` exercises the library on concrete values.
