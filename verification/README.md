# intel-candidate-app (verified core)

The library under `src/` is verified with Verus. It holds the logic of the
intel candidate application that does not need the outside world:

- `agent`, `worker`, `replay`, `cli`, `values`: command-line parsing, each
  parser specified as a fold over the arguments; accepted arguments are
  proved valid.
- `live`, `agent`: the live worker's and the agent's loops as step functions
  from state and event to next state and action.
- `agent::repair`: the prefixes of a repair cycle, the page-bounded scan
  of those prefixes as a step function, first-seen key deduplication,
  per-prefix listing cursors and cycle counts.
- `order`: the order of keys and the sorted, deduplicated key list of a
  replay run.
- `paths`: safe object keys, unambiguous absolute paths, and the paths of
  output records, proved to stay under the output directory.
- `time`, `hash`, `text`, `model`: date partitions, SHA-256 based ids,
  decimal rendering and parsing, and the model's policy keys.

`app/` is ordinary Rust around the library: file output, JSON records and
their checksums, and drivers that run the loops against the outside world.
