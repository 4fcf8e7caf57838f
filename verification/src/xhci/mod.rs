//! The xHCI host controller: rings, contexts, registers, and the driver over them.
pub mod entry;
pub mod stages;
pub mod ring;
pub mod event;
pub mod store;
pub mod port;
pub mod registers;
pub mod context;
pub mod descriptor;
pub mod controller;
pub mod storage;
pub mod op;
pub mod driver;
pub mod startup;
pub mod endpoints;
