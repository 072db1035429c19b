//! Decision logic of an asynchronous SQLite connection.
//!
//! Everything here is computation on plain values. The code that owns the
//! database handles performs the calls that this library asks for and hands
//! the replies back.

pub mod backup;
pub mod batch;
pub mod cache;
pub mod callbacks;
pub mod codes;
pub mod connection;
pub mod conversion;
pub mod cursor;
pub mod dump;
pub mod error;
pub mod extensions;
pub mod failure;
pub mod fetch;
pub mod floats;
pub mod handlers;
pub mod interrupt;
pub mod invocation;
pub mod many;
pub mod operation;
pub mod pragmas;
pub mod process;
pub mod registry;
pub mod replay;
pub mod requests;
pub mod routing;
pub mod scalar;
pub mod schema;
pub mod settings;
pub mod statement;
pub mod text;
pub mod trampolines;
pub mod transaction;
