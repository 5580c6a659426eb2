# Ferrite

Inventory and cleanup of the regenerable artifacts of a development
workspace (`node_modules`, `target`, `__pycache__`, model weights, ...):
what they occupy, whether `.gitignore` covers them, and their deletion by
selection.

## Layout

- `src/` — the verified library (Verus).
  - `catalog.rs`: the 120 detection rules, the case-insensitive wildcard
    matching and the first-match rule lookup, with the project markers.
  - `gates.rs`: what the catalogue answers for the shared names `target`,
    `vendor`, `bin`, `obj`, and that `models` and `checkpoints` are never
    claimed.
  - `scanner.rs`: the scan model of a project and its invariant, the
    classification of entries during discovery and walk, the `.gitignore`
    coverage states, the parsing of git output, deletion plans and
    outcomes, the `.gitignore` section that a fix appends.
  - `report.rs`: the client report (largest artifacts first) and the index
    of deletable paths; removals applied to a report.
  - `server.rs`: scan jobs, the resolution of a client selection into safe,
    indexed paths, the bookkeeping of clean, `.gitignore` and `git gc`
    requests, and the routing table.
  - `i18n.rs`: language resolution and dotted-key translation with fallback.
  - `calendar.rs`: civil dates from day counts, and the dated stamp.
  - `text.rs`, `seqs.rs`: string and sequence helpers with their specs.
- `tests/` — tests of the library.
- `app/` — the program: window, HTTP server, threads, disk and git
  processes, JSON. It reads the interface files from an `assets` directory
  beside the executable.
