# embedded_rust_debugger

A debugger for programs on embedded ARM targets. It takes requests (attach,
halt, step, continue, breakpoints, registers, memory, variables, call stack)
and answers them with the help of a debug probe.

The library holds everything that the debugger decides, verified with Verus:

- `handler` keeps the settings and starts a session when a request needs a
  target.
- `debugger` is the session. It asks for one operation on the target at a time
  and goes on with the reply: `protocol` lists the operations and replies,
  `model` says how a session goes, `execution`, `inspection`, `variables` and
  `breakpoints` hold the commands, `dispatch` and `session` put them together.
  `invariants` and `laws` state what holds of every session.
- `variable` turns the values of an unwound call stack (`evaluator`) into names,
  texts and types.
- `debug_information`, `disassembly`, `registers` and `text` stand before the
  outside crates that look up source lines, disassemble machine code, hold
  register values and format text.
- `malformed` tells which bytes of the debug information a search for source
  lines would overflow on. Such a search also needs a host whose `usize` has 64
  bits.
- `commands`, `config`, `target` and `breakpoint` are the data that goes in and
  out.

`app/` runs the library: channels for requests and answers, a probe that carries
out the operations, and the conversion of outside values. It takes two functions
from its user: one that reads the sections of a program file, and one that
attaches to a probe.

`tests/` runs sessions against a target that is simulated in memory.
