//! Instruction-level emulator for a 32-bit ARM-like CPU: byte-addressable
//! memory with configurable endianness, a banked register file, a bit-field
//! instruction decoder, per-shape execution handlers, and a fetch-decode-
//! execute driver with software-interrupt and IRQ entry sequencing.
pub mod bits;
pub mod cpu;
pub mod cpu_enum;
pub mod decode;
pub mod disassemble;
pub mod encode;
pub mod execute;
pub mod instruction;
pub mod loader;
pub mod memory;
pub mod options;
pub mod payload;
