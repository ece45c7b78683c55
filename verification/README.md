# thermite

Thermite drives the Ubuntu rustc packaging workflows: backporting a Rust
toolchain package to an older Ubuntu release, updating the package to a new
upstream version, fetching and generating the orig and vendor tarballs, and
reading or bumping rustc package version strings.

## Layout

- `src/` is the library, verified with Verus. It holds the data types
  (Rust versions, Ubuntu releases, rustc package versions, workflow
  parameters), the text processing of the packaging files (changelog,
  control, copyright, watch, patches, lintian output, sbuild logs), the
  compatibility inference for older releases, the rmadison cache policy
  (which queries are read from and written to the cache), and the decisions
  of the interactive workflows (release chain checks, check tallies, retry and
  candidate rules, the texts they show). Each public function states
  its result in its `ensures`; the laws that relate several functions are
  public proof functions next to them.
- `app/` is the command-line program: argument parsing, terminal prompts,
  running external tools, file and network access. It hands plain values to
  the library and acts on what comes back.
- `tests/` runs the library on concrete values.
