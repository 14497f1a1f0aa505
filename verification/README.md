# nodecosmos

The branching and merge model of NodeCosmos, verified with Verus.

A branch records every change made to a node tree (nodes, flows, flow steps,
inputs/outputs, workflows and descriptions). Merging a branch checks it for
conflicts with the current tree, then replays its changes step by step and,
when a step fails, undoes the steps already done in reverse order.

## Layout

- `src/` holds the verified library. Each operation states in its contract
  what it does over a mathematical model of the records (sets, sequences and
  maps of ids), and the laws that relate operations (an undo restores what its
  step changed, updates are idempotent, recovery runs in reverse) are proved
  as public proof functions.
  - `branch.rs`, `branch_update.rs`: the branch record and how each change is
    recorded on it.
  - `conflicts.rs`: the conflict check run before a merge.
  - `merge_step.rs`, `merge_process.rs`: the order of merge steps and the
    run/recover state machine.
  - `merge_nodes.rs`, `merge_flow_steps.rs`, `merge_workflows.rs`, `flow.rs`,
    `flow_step.rs`, `description.rs`: what each merge step computes.
  - `comment.rs`, `comment_thread.rs`, `contribution_request.rs`: comments and
    contribution requests.
- `tests/` runs the library on concrete values.
- `app/` is the unverified shell: serialisable copies of the records, the
  ordering of flows by their floating-point position, the combination of two
  description documents with `yrs` (whose decoder can panic on crafted input)
  and their rendering,
  and the drivers that run a merge, the conflict check, the replay of node
  moves, the recording of branch changes and the notifications against storage.
