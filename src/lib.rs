//! A CHIP-8 virtual machine core: memory, instruction decoder, machine state,
//! executor and step driver, each function specified and proved with Verus.

pub mod decode;
pub mod mem;
pub mod machine;
pub mod chip8;
pub mod instr;
pub mod laws;
