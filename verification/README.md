# opengpc

A register-based virtual machine for compiled GPC scripts, verified with Verus.

- `src/codegen/bytecode.rs` — the 32-bit instruction encoding (ABC and AD
  formats), the opcodes and the values; laws that decoding gives back what was
  encoded.
- `src/vm/semantics.rs` — the machine as a mathematical state and the meaning
  of every instruction, of one step and of a whole run.
- `src/vm/mod.rs` — the executable machine: loading a script behind its
  bootstrap preamble, executing one instruction (`step`) and running to the end
  (`run`), each proved to follow the semantics.
- `src/vm/laws.rs` — properties across steps: the program never changes, a
  `Return` undoes its `Call` after any balanced callee, loops restore their
  counter, reads give back writes (globals, array elements, string
  characters).
- `src/vm/tick.rs` — the tick interval selected by `vm_tctrl`.
- `app/main.rs` — the host driver: printing, pausing between ticks.
