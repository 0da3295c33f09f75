# jazz80

A Z80 system whose logic is proved with Verus: a two-pass assembler for Z80
source text, a CPU core with 64 KiB of memory and devices on its I/O bus
(keypad, seven-segment display, LCD, interrupt controller, terminal, a small
disk-operating-system controller, NMI button), a machine that runs the CPU in
slices with breakpoints, and a cooperative runner that interleaves slices
with commands.

Layout:

- `src/assembler/`: tokens and operands (`mod.rs`), lexer, operand parser,
  instruction encoders, and the two passes (`program.rs`).
- `src/cpu/`: registers, state transitions and `tick` (`mod.rs`), the ALU,
  the instruction decoder and the block instructions.
- `src/components/`: memory, devices and the DOS controller.
- `src/emulator.rs`, `src/runner.rs`: slices, snapshots, program loading,
  the cooperative runner.
- `src/formatting.rs`, `src/text.rs`: hex dumps, decimal numbers, and the
  character and number parsing the assembler and devices share.
- `app/`: a command-line front end and the threaded runner.
- `tests/`: tests of the library.

Each module states its behaviour as `requires`/`ensures` over spec functions,
and the laws the library keeps stand as public proof functions beside the
code they speak of.
