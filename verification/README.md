# kubus

Batch operations on the objects of a Kubernetes cluster, chosen by kind
(`--pvc`, `--svc`, `--pod`, `--dpl`) and by a name pattern (`--fanl`).

- `src/` is the verified library: the argument names and their priority order,
  the reading of what the command line parser found (`arg_matches`, `args`),
  the search of namespace listings by a regular expression and the grouping of
  the names found by kind (`kube`), and the decisions of a run (`executor`).
- `app/` is the command itself: clap reads the process arguments, the
  Kubernetes client lists and deletes objects, and tokio drives it.
