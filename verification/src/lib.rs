//! A CHIP-8 virtual machine and a small assembler for it.
//!
//! The machine state (memory, registers, index register, call stack, screen,
//! timer, run flag and program counter) lives in [`machine::Chip8`]; every
//! instruction is a method whose contract is stated over the mathematical
//! view [`machine::MachineState`].  The window, the keyboard and the timing
//! of the emulator are left to the caller, who drives the machine one
//! instruction at a time through [`machine::Chip8::step`].
pub mod assembly;
pub mod input;
pub mod machine;
pub mod laws;
pub mod instruction_laws;
pub mod assembly_laws;
