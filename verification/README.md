# repo-intel-core

Scans a repository, detects its tech stack, and builds the context that agent
documentation is generated from. The rules are written in Verus and verified.

- `src/` — the verified library: the folder map, the walk's bookkeeping, signal-file
  classification, the three detection layers and their merge, project/architecture
  enrichment, role mapping, path components, UTC calendar time, and the pipeline that
  ties them together. Manifest
  parsing goes through `serde_json` and `toml`; lowercasing through `str::to_lowercase`.
- `app/` — the `repo-intel` command: argument parsing, the directory walk (`walkdir`),
  reading files, probing the root, loading `.repo-intel.toml`, and JSON output.
- `tests/` — tests of the library on in-memory repositories.

Confidence scores are whole percentage points in the library (95 stands for 0.95);
the JSON output carries them as fractions.
