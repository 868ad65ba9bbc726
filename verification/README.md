# proteus

Proteus backs up Kubernetes volumes into a content-addressed repository and restores them. The
library in `src/` holds its rules and is verified with Verus; `app/` is the ordinary Rust around it.

## Layout

- `src/chunking.rs`, `hash.rs`, `crypto.rs`, `snapshot.rs`, `pipeline.rs`, `stream.rs`,
  `materialize.rs`, `gc.rs`: volumes as chunks of a repository, snapshots, and what stays in it.
- `src/schedule.rs`, `crontab.rs`, `clock.rs`, `retention.rs`, `order.rs`: when runs are due, what
  they are called, and which are pruned.
- `src/crd.rs`, `recipe.rs`, `backup_run.rs`, `restore_run.rs`, `policy_run.rs`, `progress.rs`,
  `timing.rs`, `fingerprint.rs`, `repository.rs`: the resources and what the controller does with
  them.
- `src/data_plane.rs`, `agent_work.rs`, `identity.rs`, `mover.rs`: where volumes are moved, and by
  whom.
- `src/api/`, `src/ui/`: the HTTP API and the web console, without their transport.
- `src/text.rs`, `search.rs`, `error.rs`: texts and errors.
- `tests/`: tests of the library.
- `app/`: controller, node agent, mover, schema writer and web console.

The laws of the library are the public proof functions whose names begin with `law_`.
