# venv

Finds the wheels that are installed in a Python virtual environment and works out how to pack them
again: which of the recorded files belong in the wheel, where in it they go, and how its scripts get
back the placeholder shebang that installers replace.

- `src/` is the library. Verus proves it against the contracts in it; `src/outside.rs` holds what is
  taken on trust of other crates.
- `app/` reads the file system and runs the library on what it finds.
- `tests/` runs the library on examples.
