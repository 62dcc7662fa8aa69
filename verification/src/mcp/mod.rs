//! What the tools of a remote front end do, apart from the wire.

pub mod bus;
pub mod commands;
pub mod events;
pub mod handler;
pub mod hex;
pub mod json;
pub mod link;
pub mod registers;
pub mod scenario;
pub mod storage;
pub mod symbols;
pub mod tools;
pub mod worker;
