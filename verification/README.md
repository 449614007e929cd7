# move_compiler_wasm

A Move compiler front end for WebAssembly, with its logic verified in Verus.

- `src/` is the verified library: the calculator helpers, the greeting
  checks, the package model handed to the Move compiler (`package`), the
  single-module compiler's decisions (`simple`), the package metadata and its
  BCS encoding (`metadata`, `bcs_format`), and string maps (`assoc`).
  `bcs_leaf` holds the calls into `bcs`.
- `app/` holds the WebAssembly bindings: JavaScript values in and out, the
  browser's alert and console, and the calls into the Move compiler.
- `tests/` runs the library on concrete values.
