//! A driver for xHCI USB host controllers and for USB mass storage behind them.
//!
//! The crate holds what the driver decides and computes: the layout of transfer
//! request blocks, rings, contexts and descriptors, the values that go into
//! registers, and the order in which requests follow each other. Memory that a
//! device shares and registers are plain values here; whoever owns the hardware
//! reads and writes them.
pub mod bits;
pub mod bytes;
pub mod cbw;
pub mod mbr;
pub mod scsi;
pub mod serial;
pub mod text;
pub mod trb;
pub mod xhci;
