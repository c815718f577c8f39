//! A client for the device daemon's smart-socket protocol: request framing,
//! reply decoding, status classification and the parsers for the textual
//! replies of device commands.
pub mod codec;
pub mod commands;
pub mod errors;
pub mod exchange;
pub mod properties;
pub mod replies;
pub mod text;
