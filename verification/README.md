# kenlm

Verified core of safe Rust bindings for KenLM language model inference.

- `src/` is the library, verified by Verus: loading options and their C ABI
  codes (`config`), errors and their messages (`error`), the bytes that may
  cross the C ABI and the splitting of sentences into words (`text`), loaded
  models, the scoring states that belong to them and the walk that scores a
  sentence token by token (`model`), and the
  argument and exit-code handling around KenLM's command-line tools
  (`commands`).
- `app/` declares KenLM's C shim, loads models, makes the calls into KenLM
  that the library's decisions ask for, reads C strings and pointers, and
  carries and sums KenLM's floating-point scores.
- `tests/` runs the library on concrete values.
