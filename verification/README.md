# strimzi_ops

Kafka Connect operations for Strimzi: a connector configuration linter, a
Kafka Connect REST client, Debezium snapshot triggering and notification
tracking, Strimzi YAML export, and the logic of a small web UI.

The library in `src/` is verified with Verus: every public function states
what it returns in its contract, and `src/laws.rs` holds the properties that
span several functions (reading back what a JSON object was given, rules
disabled by comments reporting nothing, listings in name order, what a
Debezium notification does to the snapshot tracker, and others).

Layout:

- `src/json.rs`, `src/document.rs`: the JSON model and the JSON, YAML and
  TOML parsers (`serde_json`, `serde_yaml`, `toml`) that fill it.
- `src/linter/`, `src/schema.rs`, `src/validate.rs`, `src/parse.rs`: lint
  rules, linter configuration, comment directives (`regex`), schema checks
  and validation reports.
- `src/connect/`: Kafka Connect request paths, URLs (`url`) and errors.
- `src/control/`: snapshot triggering as a state machine, Strimzi YAML.
- `src/monitor/`: snapshot progress tracking and the notification loop's
  decisions.
- `src/k8s.rs`, `src/settings.rs`: `kubectl` logs and connection settings.
- `src/ops/`, `src/lint_tool.rs`: what the command-line tools compute.
- `src/ui/`: the dashboard and control pages.
- `app/`: the programs themselves (`strimzi-ops`, `strimzi-lint`,
  `strimzi-ui`): argument parsing, files, HTTP, Kafka, the web server.
- `tests/`: tests of the library.
