# nimora_core

The decision logic of the Nimora desktop pet, verified with Verus.

The library decides; its host performs. The host reads rows, files and
window geometry, hands them to these functions as plain values, and writes
back what they return. Every public function states in its contract what it
returns for each input, and the laws that hold across calls (what a read
gives back of a write, what a refused request leaves unchanged, what every
transition keeps) are public proof functions named `law_*`.

## Layout

- `src/`: the verified library, one module per area:
  - desktop context: `snapshot`, `displays`, `obstacles`, `occlusion`,
    `motion`, `sensory`, `freshness`;
  - persistence rules: `outbox`, `governance`, `turn_commit`, `auto_mode`,
    `authorization`, `goals`, `history`, `paging`, `provider_config`,
    `context_cache`, `backup`, `singletons`, `grants`, `approvals`,
    `automation_approvals`, `execution_history`, `run_journal`,
    `agent_journal`, `journal_entries`, `journals`, `workspace_snapshots`,
    `records`;
  - the Skill catalog and Module Agent admission: `catalog`, `capabilities`,
    `module_agent`;
  - model import framing: `model_import`;
  - shared text, hex and error helpers: `text`, `hex`, `diagnostics`, `error`.
- `tests/`: scenario tests run against the compiled library.
- `app/`: the unverified edge: JSON wire forms with serde derives, the
  floating-point parts (display scales, spring-damper physics), the GLB
  probe worker and its JSON parse, and the diagnostic ZIP export.

## Verifying

Run Verus on `src/lib.rs`; the outside crates `sha2` and `url` are reached
only through the small trusted wrappers in `diagnostics` and
`provider_config`, and `String::push` through one in `text`.
