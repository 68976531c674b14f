//! A verified fetch-decode-execute interpreter core for a CHIP-8 style
//! instruction set: a flat 4096-byte memory, sixteen 8-bit registers, a
//! bounded call stack, and a dispatch loop over 16-bit instruction words.

pub mod cpu;
pub mod decode;
pub mod machine;

pub use cpu::CPU;
pub use machine::ExecFault;
pub use machine::RunOutcome;
pub use machine::StepOutcome;
