# cargo-rbext

A Cargo subcommand that creates, builds and installs Ruby extension
libraries written in Rust (with the `rosy` crate), and programs that call Ruby.

- `src/` is the verified library: the options of `cargo rbext new`, the
  subcommand dispatch, the file names of the built library and of the Ruby
  extension (read from `Cargo.toml` with the `toml` crate), the TOML line
  insertion and template filling that set up a new package, and the path
  arithmetic of `build` and `install`. Each public function carries a
  contract over `Seq<char>` views; the `law_*` proof functions state what
  holds across calls.
- `app/` is the program: it reads and writes files, runs Cargo and Ruby,
  parses `RubyExt.toml` with serde, and holds the template texts.
- `tests/` runs the library on concrete inputs.
