pub mod memory;
pub mod regs;
pub mod machine;
pub mod cpu;
pub mod modrm;
pub mod opcode;
pub mod alu;
pub mod ops;
pub mod bios;
pub mod semantics;
pub mod execute;
pub mod decode;
pub mod laws;
pub mod line;
pub mod meaning;
