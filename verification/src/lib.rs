//! Verified core of the Movement command-line tool and Aptos subnet VM:
//! argument encoding (ULEB128 / BCS), argument parsing, address and
//! member-id parsing, CLI option types, and the block-executor and VM
//! decision logic.

pub mod address;
pub mod arg;
pub mod arg_json;
pub mod bcs_codec;
pub mod decimal;
pub mod errors;
pub mod executor;
pub mod hex_codec;
pub mod member;
pub mod options;
pub mod text;
pub mod u256;
pub mod uleb128;
pub mod vm;
pub mod summary;
pub mod gas;
pub mod config;
pub mod named;
pub mod package;
pub mod init;
pub mod keys;
pub mod move_cmds;
