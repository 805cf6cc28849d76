# cargo-dlx

`cargo dlx` downloads, compiles and executes a Rust binary without
installing it globally: it installs the package into a temporary root with
`cargo install`, runs the installed binary with the remaining arguments, and
removes the root again. Build artifacts are kept in a persistent Cargo target
directory; `cargo dlx --clear` removes them and any stale temporary roots.

## Layout

- `src/` is the library, verified with Verus:
  - `ops/cargo_dlx/cli.rs`: the command line and the package references
    (`name[@ver]`, `git+`, `file://`, `path+file://`, `registry+`,
    `sparse+`);
  - `ops/cargo_dlx/run.rs`: runtime directories, the arguments of
    `cargo install`, the choice of the installed binary, exit codes;
  - `ops/cargo_dlx/execute.rs`: a run as a state machine whose actions
    (file system, environment, child processes) the caller performs;
  - `semver_flag.rs`, `source_url.rs`: the version and URL parts of a
    reference, read with the `semver` and `url` crates;
  - `os_text.rs`, `byte_order.rs`, `text.rs`, `raw_args.rs`: OS strings and
    Unix paths as bytes, their order, text searching, argument
    normalisation;
  - `cli.rs`: the first command line (a crates.io package and its
    arguments) with its help detection.
- `app/` is the program: clap parsing, the environment, and the loop that
  performs the run machine's actions.
- `tests/` runs the library on concrete values.
