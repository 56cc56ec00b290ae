//! What the server keeps about its users.

pub mod err;
pub mod user;
pub mod user_database;
