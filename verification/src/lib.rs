//! A static analyzer for Solana smart contracts, working on a plain-data
//! model of the compiler's mid-level IR.

pub mod strs;
pub mod conf;
pub mod mir;
pub mod collections;
pub mod source_info;
pub mod reporter;
pub mod wpa;
pub mod walk;
pub mod dd;
pub mod callgraph;
pub mod visit;
pub mod ty_confusion;
pub mod version;
pub mod accounts;
pub mod assertions;
pub mod analysis;
pub mod checkers;
