//! BLE peripheral core: the GATT service model and the connection
//! lifecycle state machine. The radio and the link layer are external
//! collaborators; this module decides what the device advertises, how an
//! attribute handle resolves, and how the session reacts to each event.

pub mod peripheral;
pub mod profile;
