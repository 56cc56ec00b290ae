//! The POP3 side of the server.

pub mod command;
pub mod connection;
pub mod err;
pub mod response;
pub mod session;
