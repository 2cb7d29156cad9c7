//! Client-side session engine for the glide file-sharing service: command
//! grammar, response classification, transfer framing and accounting, the
//! username handshake, the session dispatcher and the line editor state.

pub mod command;
pub mod error;
pub mod frame;
pub mod handshake;
pub mod repl;
pub mod response;
pub mod session;
pub mod text;
pub mod transfer;
pub mod username;
