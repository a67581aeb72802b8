//! A local emulator core for a Solana-like smart-contract platform.
//!
//! A validator process keeps a ledger of accounts and dispatches transaction
//! instructions; each on-chain program runs as a separate child process that
//! talks to the validator over a length-prefixed frame channel. This crate
//! holds the verified execution core shared by both sides: the packed account
//! blob handed to a program entrypoint, the syscall decisions on the child
//! side, the frame codec and message protocol, the instruction executor with
//! its fee and commit rules, and the built-in system program.

pub mod account;
pub mod blob;
pub mod bytesutil;
pub mod caller;
pub mod encodings;
pub mod error;
pub mod executor;
pub mod framing;
pub mod ledger;
pub mod messages;
pub mod pda;
pub mod rpc;
pub mod syscalls;
pub mod system_program;
pub mod test_program;
pub mod textutil;

use vstd::prelude::*;

verus! {

/// Fee charged per unique transaction signer, in lamports.
pub const LAMPORTS_PER_SIGNATURE: u64 = 5000;

} // verus!
