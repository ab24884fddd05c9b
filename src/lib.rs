//! A cycle-stepped emulator for a small 16-bit teaching computer: an ALU
//! driven by six control flags, a decoder/executor that runs one instruction
//! per call, a loader for programs written as lines of binary digits, and a
//! disassembler for debugging.
pub mod alu;
pub mod disasm;
pub mod loader;
pub mod machine;

pub use alu::compute;
pub use disasm::disassemble;
pub use loader::parse_program;
pub use machine::{Emu, EmuError, ScreenWrite, KEYBOARD, RAM_SIZE, ROM_SIZE, RUN_CYCLES, SCREEN_END, SCREEN_START};
