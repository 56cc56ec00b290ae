//! The mail-transfer side of the server.

pub mod command;
pub mod err;
pub mod incoming_connection;
pub mod reply;
