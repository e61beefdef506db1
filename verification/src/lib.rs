//! Request handling and message building for the DarkDesk local control API.
//!
//! The library decides; the program around it performs the I/O that the
//! decisions call for (sockets, configuration store, processes).

pub mod text;
pub mod json;
pub mod handlers;
pub mod process;
pub mod messages;
pub mod connection;
pub mod properties;
