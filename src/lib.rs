//! Application side of an emulated embedded-kernel syscall boundary: the wire
//! format of requests and answers, the order in which a syscall exchanges
//! them, and the process's write-once configuration.

pub mod config;
pub mod syscall;
pub mod wire;
