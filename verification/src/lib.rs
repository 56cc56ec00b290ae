//! Protocol engine of a small mail server: the POP3 command parser, the
//! response encoder and decoder, the frame buffer and the session state
//! machine, together with the mail-transfer reply parser and the message
//! header utilities they rely on.

pub mod address;
pub mod buffer;
pub mod config;
pub mod config_editor;
pub mod config_helpers;
pub mod database;
pub mod imf;
pub mod mailbox;
pub mod pop3;
pub mod smtp;
pub mod text;
