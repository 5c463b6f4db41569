# chip8

A CHIP-8 virtual machine and an assembler for its `as8` text format, verified
with Verus.

- `src/machine.rs`: the machine state, its mathematical view and one method per
  instruction, each with a contract; `step` runs one pass of the run loop.
- `src/assembly.rs`: `compile`, from `as8` source text to a memory image.
- `src/input.rs`: the keypad and its keyboard layout.
- `src/laws.rs`: properties that relate several operations.
- `app/`: the emulator program (window, keyboard, clocks, files) around the library.
