use vstd::prelude::*;

pub mod text;
pub mod numeric;
pub mod header_map;
pub mod plain;
pub mod channel;
pub mod headers;
pub mod event;
pub mod constants;
pub mod error;
pub mod commands;
pub mod command;
pub mod buffer;
pub mod protocol;
pub mod connection;
pub mod dptools;
pub mod bgjob;

verus! {
}
