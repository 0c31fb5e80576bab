//! A driver for a PL011-compatible UART.
//!
//! The driver decides; the caller performs the memory-mapped accesses. Register
//! values read from the device are handed in as plain integers, and the writes
//! that the driver wants performed are handed back as [`RegWrite`] values, in
//! order.
pub mod regs;
pub mod uart;
pub mod waker;
pub mod write;

pub use regs::{RegWrite, WordLength};
pub use uart::{IrqOutcome, Pl011Uart};
pub use write::{WriteFuture, WriteStep};
