# hashline_transaction

Crash-safe, multi-file edit transactions addressed by line hashes, verified with Verus.

A request names files under one root and what to do with each: create, update through
hash-anchored line edits, delete, or move. Planning observes every file, checks each
expectation and limit, compiles the edits, and digests the plan; previewing projects it for a
model within a byte budget. Executing locks the paths in one global order, revalidates them,
stages after-images and backs up before-images, and then applies the mutations one by one under
a write-ahead journal, rolling back newest-first on failure. Recovery after a crash reads each
pending journal and converges its transaction to the journal's target.

## Layout

- `src/` is the verified library. Its public functions state their results in `ensures`; the
  commit and recovery machines track the journal's last durable generation exactly and state
  write-ahead over it (an apply, restore or cleanup only after the journal durably allows it),
  and state, for each step, which action comes next, that a mutation
  is recorded applied or rolled back only after the executor reported its apply or restore,
  that a failure while committing starts a rollback and a failure after it escalates, that a
  successful result needs the reported removal of every staged file and backup, and which
  failures a `RecoveryRequired` result carries.
  - Requests, plans and limits: `request`, `limits`, `edits`, `planner`, `plan_digest`,
    `preview`, `ordering`, `keys`, `digest`, `text`.
  - The journal: `journal` (states and mutation progress), `journal_decode` (validation of a
    decoded record), `framing`.
  - Execution and recovery decisions: `executor`, `prepared`, `capability`, `commit_machine`
    (what to persist, apply, restore or clean up next during a commit), `recovery`,
    `recovery_checks`, `recovery_machine` (the same for restart recovery).
  - The native Linux filesystem's rules: `model_paths`, `durable_keys` (keys, names and the
    storage reservation), `metadata_codec`,
    `native_status`, `native_locks`, `sidecar_scan`, `fs_semantics`, `guarded_steps`
    (replayable guarded links, exchanges and removals), `native`, `messages`.
  - Laws over several functions: `edit_laws`, `journal_laws`, `plan_laws`, `recovery_laws`,
    `guarded_laws`.
- `tests/` runs the library on concrete values.
- `app/` holds what Verus does not see: the asynchronous filesystem capability traits, the loops
  that perform filesystem calls between the library's decisions, and JSON encoding. Its only
  filesystem is the one for platforms without native support; the Linux filesystem, whose
  rules `src/` states and proves, is not part of it.

SHA-256 comes from `sha2` and line hashes from `xxhash-rust`, each behind one trusted wrapper
whose contract names the outside function's result.
