# Gravedigger

Checks the health of dependencies across the AUR, Cargo, npm, PyPI and Go: which
are active, stale, inactive or dead, which have known vulnerabilities, what
changed since an earlier revision, and what a bill of materials of them looks
like.

## Layout

- `src/` is the library: everything that is decided and computed, verified with
  Verus. It takes what was fetched or read as plain values and gives back what is
  to be sent, kept or shown.
- `app/` is the program around it: the command line, the network, files, `git`
  and `pacman`, and the types with their serde derives.
- `tests/` runs the library on concrete values.

| Module | What it is about |
|--------|------------------|
| `text`, `render`, `table` | Text as sequences of characters, numbers and lists as text, tables |
| `clock` | Dates and ages |
| `types`, `health` | States of health, results, how ages become a health and a reason |
| `api` | What is sent to GitHub and the AUR, and what is read out of replies |
| `cargo`, `npm`, `pypi`, `golang`, `aur` | One ecosystem each: lockfile, health, records, lines |
| `attestation` | The provenance of npm packages |
| `osv` | Vulnerabilities from OSV.dev |
| `cache` | Where results are kept, and for how long they count |
| `plan`, `scan`, `report` | What happens before, during and after a scan |
| `display` | Signs, colors, numbers |
| `diff` | Dependency changes between two revisions |
| `downstream` | Reverse dependencies |
| `sbom`, `sbom_diff` | Bills of materials, and the difference of two |
| `command` | What the command line asks for |

## What is believed without proof

The contracts of six small functions that call other crates: four in `clock`
(`chrono`), one in `attestation` (`base64`), one in `sbom` (`uuid`). Each says
above its header what it claims.
