//! Messages in the Internet Message Format.

pub mod err;
pub mod header;
pub mod mail;
