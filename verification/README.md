# helix_eco_glove

The standard interface of Helix ECO gloves (platform-native tool sets), the
macOS glove, the adapter to the Tentacle tool model, and the L1 static audit
of tool manifests, with their contracts proved by Verus.

## Layout

- `src/` — the verified library
  - `glove.rs`: platforms, risk levels, capability domains, tool
    definitions and their JSON parameter schema, tool results, errors, the
    `EcoGlove` trait with capability extraction, tool lookup and parameter
    validation
  - `macos.rs`: the macOS glove's six tools, the planning of a call
    (validation, dry runs, the operation to perform) and the results built
    from an operation's outcome
  - `adapter.rs`: tool definitions as Tentacle manifest records, tool results
    as tool outputs, platform gating
  - `registry_parse.rs`, `vocabulary.rs`: the CI-144 `RiskLevel` vocabulary
    block, its parser and structural validation
  - the audit module: the L1 rules R001–R009, risk-level classification
    and report queries
  - `json.rs`, `text.rs`: the JSON value model and character-level helpers
  - `laws.rs`, `risk_laws.rs`: properties that relate several functions
- `tests/` — tests of the library
- `app/` — the runtime around it: serde records, JSON conversion, error
  types with `Display`, the host platform, the macOS glove's file-system and
  process operations, blocking execution of adapted tools

Registering tools with Tentacle (`register_all`, `register_supported`,
`register_glove`, `register_gloves`, `manifest_indices`) and implementing
Tentacle's `Tool` trait are not part of this crate: they need the
`tentacle_core` crate, which is not available here. What those calls would
be handed is computed by `GloveAdapter::tools_to_register`,
`GloveAdapter::manifests` and `tool_result_to_output`.
