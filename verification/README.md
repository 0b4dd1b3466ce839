# webcodex

Verified core of three WebCodex pieces:

- `browser`, `navigation`: Browser runtime vocabulary (execution certainty,
  typed errors, control admission, key mapping, text clipping) and admission of
  navigation targets (absolute `http`/`https` URLs, parsed by the `url` crate).
- `communication`, `attempt_reference`: the Agent Task Attempt reference ledger,
  with its laws (a lookup returns what an issue wrote, reissue is idempotent,
  issued indexes never retarget, namespaces are isolated).
- `validation`: structured validation options, plan arguments and purposes.

`app/` holds the serialized wire forms, the time bounds, and SQLite persistence
for the ledger.

Left out: the structured validation plan and the validation adapter trait and
registry, which need the `webcodex_core` crate and the per-tool adapters. The
identifier, proof and principal formats in `src/communication.rs` are this
crate's model (see the crate documentation).
