# agentic-sandbox

A deterministic broker for AI coding and security agents. Every file write,
edit and shell command an agent proposes, and every technique attempt in the
attack/defend lab, is decided by fixed rules over declared scope and logged
evidence, never by a model.

## Layout

- `src/` is the library, verified with Verus. Each public function states
  what it returns in its `ensures`, over the spec functions of its module;
  the properties that relate several functions are the `law_*` proof
  functions.
  - `text`, `json`, `edits`: text search and replacement, JSON field
    lookups, and the two edit schemas (one `old_string` replacement, and a
    batch of non-overlapping replacements located in the original).
  - `claude_code`, `copilot_cli`, `pi`: the three hook adapters' payload
    handling and answers.
  - `static_analysis`, `gate_policy`, `review`, `gate_verdict`: the deny
    rules, the workspace containment check, the evidence each stage logs,
    and the final decision read back from that evidence.
  - `scope`, `broker`, `research`, `lab`, `verdict`, `audit`: the lab's
    declared scope, its capability broker (validity window, exclusions,
    allowed categories, and containment of an attempt's resolved target
    path inside a declared `local-directory` target), the technique queue,
    the attacker's and defender's decisions, the verdicts computed from the
    audit log, and the store keys (time, a per-store sequence number and
    subject, so no event replaces another).
- `app/` is the program around it: hook programs on stdin/stdout, the Pi
  HTTP bridge, the `redb` audit store, path resolution on disk, the WASI
  sandbox (`wasmtime`, with a small WAT guest that writes one file inside
  its single preopened directory), and the lab commands `ingest`, `attack`,
  `defend` and `verify`.
- `tests/` runs the library on concrete values.
