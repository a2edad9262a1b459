//! A sandboxed file service: framing, validation, dispatch and caching of
//! the requests it receives, with the file system and the socket left to
//! the caller.

pub mod text;
pub mod protocol;
pub mod frame;
pub mod response;
pub mod cache;
pub mod dispatch;
pub mod laws;
