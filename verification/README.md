# crabmake

A small Cargo-like build tool for C and C++ projects, as a verified library
(`src/`) and a thin command-line program around it (`app/`).

- `src/manifest.rs`: the `build.toml` model and the manifest of a new project.
- `src/file.rs`: glob detection, source lists, and the reader of the
  make-style dependency files that the compiler writes.
- `src/config.rs`, `src/context.rs`: where a build puts its outputs and which
  compiler it runs.
- `src/command.rs`, `src/commands.rs`: compiler and linker command lines, the
  decisions of an incremental build, and compilation-database entries.
- `src/paths.rs`, `src/text.rs`: the path and string operations underneath.

`app/` reads and writes files, runs the compiler, and parses the command line.
