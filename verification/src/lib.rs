//! The verified core of a toolkit for blockchain services: the blockchain file system
//! that a service runs on, the Ethereum ABI derivation for contract interfaces, and the
//! build's analysis of a service's source into its RPC interface.
use vstd::prelude::*;

pub mod abi_args;
pub mod abi_gen;
pub mod abi_items;
pub mod abi_json;
pub mod address;
pub mod bcfs;
pub mod blockchain;
pub mod build_plugin;
pub mod collectors;
pub mod contract_def;
pub mod defined_types;
pub mod file;
pub mod fs_laws;
pub mod idl;
pub mod import_gen;
pub mod log;
pub mod mantle_build;
pub mod path;
pub mod syntax_pass;
pub mod wasi;

verus! {
} // verus!
