//! A verified CHIP-8 virtual machine: a fetch-decode-execute engine over
//! 4096 bytes of memory, sixteen 8-bit registers, a 16-level call stack,
//! two countdown timers, a 64x32 monochrome pixel surface and a 16-key
//! matrix. The instruction semantics, the loader and the timer tick are
//! specified against a mathematical model of the machine state and proved;
//! rendering, input and pacing are left to a host around the library.

pub mod decode;
pub mod draw;
pub mod exec;
pub mod laws;
pub mod machine;
