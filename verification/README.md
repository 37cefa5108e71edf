# aiscript_vm

A bytecode virtual machine for a small scripting language, verified with Verus.

- `src/semantics.rs` says what each instruction does to a machine, on the model in
  `src/machine.rs`. An instruction ends in one of five ways: the next one follows, the
  run is done, the program has failed, the host has to answer, or the machine is stuck
  because the code reaches for what is not there.
- `src/vm/` is the executable machine. Every function of it is proved to do what
  `semantics` says and to keep the machine well-formed. Functions named `try_...`
  report a stuck machine; their namesakes are for callers that know it is not.
- `src/compiler.rs` puts the functions of a program on the machine's heap, and
  `src/inject.rs` turns values of the host into values of the machine.
- `src/laws/` proves what holds of all programs: what instructions leave alone, that
  nothing ever refers to what is not there, how calls and returns pair up, how captured
  variables are shared and closed, how budgets add up, and that programs find what
  their host has given them, also after other programs have run.
- `src/ast.rs` holds syntax trees and parse errors.
- `app/` is the interpreter around the machine: it owns the arena and answers requests
  (floating-point arithmetic, printing, the clock, models and agents).

The machine keeps its objects in lists by place, and the lists only grow. The arena
holds the machine as one root without pointers, so although its collector is let run
between budgets, nothing that a program allocates is reclaimed before the machine is
dropped.

Numbers are held as the bits of 64-bit floating-point values. Comparing and negating
them is done on the bits; arithmetic that rounds is a request to the host.
