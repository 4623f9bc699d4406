# KuMuTeVa

A validator for multi-tenancy on Kubernetes. It asks of two tenants of a cluster
how well the platform keeps them apart (isolation), what each can do on its own
(autonomy), and how one fares while the other presses hard (fairness).

## Layout

- `src/` is the library, verified with Verus. It holds the decisions: which
  request an experiment makes next, what an answer stands for, how levels and
  ratios add up, and how a report reads. An experiment is a function from the
  replies so far to its next request or its verdict, so that what it does is
  stated for every sequence of replies.
  - `control_plane/`: experiments on the objects of the API server.
  - `breach.rs`, `network/`: experiments between pods, with a planted secret.
  - `fairness/`: schedules, load, resource classes, grades and exported files.
  - `report.rs`, `run.rs`, `render.rs`, `multitenancy.rs`: from findings to
    reports.
  - `*laws.rs` and the public proof functions elsewhere state what holds of the
    library as a whole: that every experiment ends and cleans up after itself,
    that a verdict needs evidence, that a breach is never hidden.
- `tests/` runs the library.
- `app/` is ordinary Rust around it: the Kubernetes client, the terminal, files,
  clocks and floating-point metrics.

## Levels

From worst to best: `None` (a breach was seen), `Unknown` (nothing was
measured), `Soft` (refused, and the refusal shows that the environment is
shared), `Hard` (what a lone tenant would see).
