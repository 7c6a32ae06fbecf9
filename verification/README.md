# weaver_semconv

The model of OpenTelemetry semantic conventions (version 1 and version 2
definition files, registry manifests, schema URLs), its validation and the
conversion from version 2 to version 1, together with searching, browsing and
key suggestions over a resolved registry, written in Verus with their
contracts proved.

- `src/` is the verified library. Each public function states in its
  `ensures` what it returns; the laws that relate several functions stand as
  public proof functions in `src/laws.rs` (search, suggestions, namespaces,
  schema URLs), `src/validation_laws.rs` (group and file validation, format
  detection, manifest reading), `src/template_laws.rs` (span name template
  patterns), `src/convert_laws.rs` (conversions), `src/stats.rs`,
  `src/entity_association.rs`
  and `src/unexpected_fields.rs`.
- Calls into `url` and `globset` go through small trusted wrappers whose
  contracts name what the call returns.
- `app/` holds what needs the file system or serde: loading definition files
  and manifests from disk, and the serde forms of the model with conversions
  to and from the library's types.
- `tests/` exercises the library on concrete values.
