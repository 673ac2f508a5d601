# intentdiff

Compares two infrastructure snapshots (multi-document YAML) by the intent they
express rather than by their text. Rules observe facts in each document (TLS,
emptyDir and storage mode, authentication mode, replica posture, public
exposure, run-as-non-root), the diff matches observations across the two
snapshots by rule and resource identity, and the policy ranks each drift by
severity. Reports render for a terminal or as Markdown.

Layout:

- `src/` — the library, verified with Verus:
  - `yaml.rs` — the YAML tree the rules read, with path lookups;
  - `yaml_stream.rs` — reading a YAML stream into that tree;
  - `snapshot.rs` — documents, resource references and match keys, snapshots;
  - `semantic/` — observations, rules, the analyzer and profiles;
  - `diff.rs` — matching observations of two snapshots;
  - `policy.rs` — severities, messages and ranking of findings;
  - `engine.rs`, `report.rs`, `cli.rs` — the pipeline, rendering, the
    command line's choices and exit code.
- `app/` — the `intentdiff` command: argument parsing, reading files,
  printing and exiting. YAML parsing happens in the library
  (`src/yaml_stream.rs`, through `serde_yaml`).
- `tests/` — tests of the library.
