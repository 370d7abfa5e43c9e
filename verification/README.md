# revng_fugue

Decompiles functions of a binary through the revng pipeline, with code lifted by fugue.

The library in `src/` is written in Verus. It decides which requests an analysis sends and in which
order, what a failed reply leads to, which functions an analysis covers, when a session can go on
with the analysis it has, what a run of the lifter leaves behind, which calls of LLVM optimise and
compile a module, and what the command line shows. Each of these is stated in a contract and proved.

Loading a binary, lifting its code, rendering a function with and without markup, and everything
that revng does are not part of it: the library takes their results. What LLVM answers is taken
through inkwell, in `codegen.rs` and `lift.rs`; the declarations there, the ones on rustc-hash's
collections in `fx.rs`, and the one on std in `text.rs` are trusted.

- `src/` - the verified library
- `tests/` - its tests, with a pipeline in which everything succeeds or fails as needed
- `app/` - ordinary Rust around it: the command line, the loop that sends requests to an `Engine`
  (a binding of revng), and the C side of the lifter callback
