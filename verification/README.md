# native_targets

C and C++ targets for a Cargo-like build tool: which targets a package has, how their
sources are compiled and linked, what their dependencies give to them, and when a
build is still fresh.

`src/` is the library. Everything in it is verified with Verus: each function states
in its contract what it returns, and the laws that relate several functions are proof
functions beside them. It neither reads files nor runs programs; what it needs to
know of the machine it takes as plain values. Three calls rest on what their
documentation says rather than on a proof: `String::push`, `char::to_uppercase` and
`cargo_util::paths::normalize_path`.

The host is a Unix system, and paths are Unix paths. What is built may be for Windows,
with the tools of any family. Windows hosts are not supported: their drives and
backslashes are known in the names of programs alone.

- `text`, `os_text`, `path`, `fs`, `order`, `report`: texts, texts that need not be UTF-8,
  paths, what stands at them, stable orders and reports of checks.
- `manifest`, `validate`, `discover`, `normalize`, `targets`: from a manifest and a
  directory to the targets of a package. `conventions` and `settled` hold the laws of
  that.
- `native`, `profile`, `env`, `config`, `toolchain`: compilers and their options.
- `outputs`, `units`, `link`, `layout`, `command`, `tools`, `plan`, `database`: from a
  graph of units to the commands of a build and the compilation database. `propagate`
  holds the laws on what reaches a target from its dependencies.
- `fingerprint`: what tells whether a build is fresh. `watched` holds the laws on which
  files are watched, and `rejoin` the law that a recorded file is found again.

`app/` is the host side, in ordinary Rust: it reads the file system and the
environment, runs tools and writes files.

`tests/` runs the library on concrete values.
