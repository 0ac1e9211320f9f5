//! Core of a Bluetooth-driven tri-color e-paper dashboard.
//!
//! A remote peer writes 32-byte pixel payloads into a GATT characteristic;
//! the payloads are decoded into tri-color pixels and composited into an
//! in-memory frame buffer, which is pushed to the physical panel on demand.
//! The panel driver and the radio stack are external collaborators: this
//! crate computes what they should do and proves it correct, while the
//! surrounding program performs the actual bus traffic.

pub mod bluetooth;
pub mod display;
