# pptx_compose

The verified core of a PowerPoint (PPTX) editing toolkit for agents. Agents
read a presentation through paginated JSON views and change it through patch
documents; this library holds the rules in between, proved with Verus.

## Layout

- `src/` — the verified library.
  - `patch`, `patch/targets`, `patch/staging`: patch envelopes and their
    validation, operation targets and selector conflicts, and the report of a
    patch run (atomic on failure, sorted unique changed parts).
  - `operations/*`: the checks each edit makes before it touches a package
    (bounds, styles, media, replacement text, metadata, alt text), part-name
    arithmetic, and shape-tree insertion order.
  - `selectors`: selector guards and the one-match rule.
  - `media_inputs/*`: media bindings from manifests, safe media paths, inline
    base64, size limits and content sniffing.
  - `agent_view/*`: view requests, pagination with scoped cursors, text
    projection and truncation, find-text spans and run selection.
  - `binary_encoding`, `legacy_path_map`: the base64 codec and the legacy
    path-keyed part envelopes.
  - `reports`, `schemas`, `error`, `diffs`, `journal`, `text`, `lexical`:
    report vocabularies, errors and shared helpers.
- `tests/` — tests run against the compiled library.
- `app/` — JSON parsing (serde), JSON Schemas (schemars), file reading and the
  error envelope, around the library.

## What is not here

Building views of a package, finding text in it, applying patches and
running operations on a package all read or write PPTX parts and their XML
through the `pptx_compose_core` crate, which is not available to this
project. Those steps are absent. What they decide without touching a package
is here and verified: the view request checks (`view_target`), page cutting
and cursors, text projection, selector resolution over candidates, the
checks each operation makes, and the planning and reporting of a patch run.
