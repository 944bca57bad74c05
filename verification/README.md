# kernel_ci_center

The verified core of `kci`, a small CI driver for Samsung GKI kernel builds:
it reads a device table, decides what to build and where, runs each device's
`build.sh`, collects the packed zip and publishes it as a GitHub Release.

- `src/` is the library, checked by Verus: the config model (`config`), the
  build decisions and git/toolchain steps (`pipeline`), release texts and the
  `gh` steps (`release`), the `OWNER/NAME` slug of a repo URL (`slug`),
  checksums, zip selection and retry timing (`util`), and character-level
  string helpers (`text`).
- `app/` is the `kci` program: command line, TOML loading, processes and files.
  It asks the library what to run next and reports back how it went.
- `tests/` exercises the library, including agreement with std's own path and
  string functions.
