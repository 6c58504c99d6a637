//! Command codec for a framed, request/response key-value protocol.
//!
//! A command is decoded from the fields of a received array frame, executed
//! against the key-value store, and answered with one response frame; on the
//! client side the same command is encoded into the frame that is sent.
//! Socket handling is left to the caller: the library turns frames into
//! commands and commands into frames.

pub mod byte_string;
pub mod cmd;
pub mod db;
pub mod frame;
pub mod parse;

pub use cmd::multiget::MultiGet;
pub use db::Db;
pub use frame::{Frame, FrameView};
pub use parse::{Parse, ParseError};
