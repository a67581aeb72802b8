//! The tagged messages the two processes exchange over the frame channel.
//! The channel carries opaque payloads; byte (de)serialization of these
//! values sits outside the core, while every decision about them is made
//! here on the values themselves.

use crate::account::{AccountMap, BorshAccountMeta, Pubkey};
use vstd::prelude::*;

verus! {

/// Sent from a debuggable program (child) to the validator.
pub enum BokkenRuntimeMessage {
    Log { nonce: u64, message: String },
    Executed { nonce: u64, return_code: u64, account_datas: AccountMap },
    CrossProgramInvoke {
        nonce: u64,
        program_id: Pubkey,
        instruction: Vec<u8>,
        account_metas: Vec<BorshAccountMeta>,
        account_datas: AccountMap,
        call_depth: u8,
    },
}

impl BokkenRuntimeMessage {
    /// The request this message answers or extends.
    pub open spec fn nonce(&self) -> u64 {
        match *self {
            BokkenRuntimeMessage::Log { nonce, .. } => nonce,
            BokkenRuntimeMessage::Executed { nonce, .. } => nonce,
            BokkenRuntimeMessage::CrossProgramInvoke { nonce, .. } => nonce,
        }
    }
}

/// Sent from the validator to a debuggable program.
pub enum BokkenValidatorMessage {
    Invoke {
        nonce: u64,
        program_id: Pubkey,
        instruction: Vec<u8>,
        account_metas: Vec<BorshAccountMeta>,
        account_datas: AccountMap,
        call_depth: u8,
    },
    CrossProgramInvokeResult { nonce: u64, return_code: u64, account_datas: AccountMap },
}

impl BokkenValidatorMessage {
    pub open spec fn nonce(&self) -> u64 {
        match *self {
            BokkenValidatorMessage::Invoke { nonce, .. } => nonce,
            BokkenValidatorMessage::CrossProgramInvokeResult { nonce, .. } => nonce,
        }
    }
}

/// The very first child frame on a new connection: the raw 32-byte program
/// id the child implements.
pub fn parse_handshake(payload: &Vec<u8>) -> (r: Option<Pubkey>)
    ensures
        match r {
            Some(pk) => payload@.len() == 32 && crate::account::pubkey_bytes(pk) == payload@,
            None => payload@.len() != 32,
        },
{
    if payload.len() != 32 {
        return None;
    }
    Some(Pubkey::from_bytes(payload.as_slice()))
}

} // verus!
