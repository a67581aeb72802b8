//! The JSON-RPC request and response shapes and their binary string
//! encodings. Transport and schema (de)serialization live outside the
//! core; the types here are plain values, and the encoding arithmetic is
//! pinned to the encoder names of `encodings`.

use crate::encodings::{
    base64_decode, base64_encode, base64_of, bs58_decode, bs58_encode, bs58_of, zstd_decode,
    zstd_encode, zstd_of,
};
use crate::error::BokkenError;
use vstd::prelude::*;

verus! {

/// How binary payloads travel inside JSON strings.
#[derive(Clone, Copy, PartialEq, Eq, Structural, Debug)]
pub enum RpcBinaryEncoding {
    Base64,
    Base58,
    /// base64 over a zstd frame
    Base64Compressed,
}

impl Default for RpcBinaryEncoding {
    fn default() -> (r: Self)
        ensures
            r == RpcBinaryEncoding::Base64,
    {
        RpcBinaryEncoding::Base64
    }
}

impl RpcBinaryEncoding {
    /// Decode a payload string under this encoding; inverts `from_bytes`.
    pub fn decode_bytes(&self, data: &String) -> (r: Result<Vec<u8>, BokkenError>)
        ensures
            match *self {
                RpcBinaryEncoding::Base58 => (forall|x: Seq<u8>|
                    data@ == bs58_of(x) ==> r is Ok && r.unwrap()@ == x) && ((r is Err) ==> r
                    == (Result::<Vec<u8>, BokkenError>::Err(BokkenError::Base58DecodeError))),
                RpcBinaryEncoding::Base64 => (forall|x: Seq<u8>|
                    data@ == base64_of(x) ==> r is Ok && r.unwrap()@ == x) && ((r is Err) ==> r
                    == (Result::<Vec<u8>, BokkenError>::Err(BokkenError::Base64DecodeError))),
                RpcBinaryEncoding::Base64Compressed => forall|x: Seq<u8>|
                    data@ == base64_of(zstd_of(x)) ==> r is Ok && r.unwrap()@ == x,
            },
    {
        match self {
            RpcBinaryEncoding::Base58 => match bs58_decode(data) {
                Some(v) => Ok(v),
                None => Err(BokkenError::Base58DecodeError),
            },
            RpcBinaryEncoding::Base64 => match base64_decode(data) {
                Some(v) => Ok(v),
                None => Err(BokkenError::Base64DecodeError),
            },
            RpcBinaryEncoding::Base64Compressed => {
                let mid = match base64_decode(data) {
                    Some(v) => v,
                    None => {
                        return Err(BokkenError::Base64DecodeError);
                    },
                };
                match zstd_decode(&mid) {
                    Some(v) => Ok(v),
                    None => Err(BokkenError::BincodeDecodeError),
                }
            },
        }
    }
}

/// A binary payload as it travels in a response, with the encoding tag the
/// cluster API pairs it with.
#[derive(Clone, Debug)]
pub struct RPCBinaryEncodedString(pub String, pub RpcBinaryEncoding);

impl RPCBinaryEncodedString {
    /// Encode bytes under the requested encoding. Should the compressor
    /// report failure, the bytes travel as plain base64 under the plain
    /// tag, so the carried tag always decodes the carried text back to
    /// `data`.
    pub fn from_bytes(data: &Vec<u8>, encoding: RpcBinaryEncoding) -> (r: RPCBinaryEncodedString)
        ensures
            match r.1 {
                RpcBinaryEncoding::Base58 => r.0@ == bs58_of(data@),
                RpcBinaryEncoding::Base64 => r.0@ == base64_of(data@),
                RpcBinaryEncoding::Base64Compressed => r.0@ == base64_of(zstd_of(data@)),
            },
            encoding != RpcBinaryEncoding::Base64Compressed ==> r.1 == encoding,
            encoding == RpcBinaryEncoding::Base64Compressed ==> (r.1
                == RpcBinaryEncoding::Base64Compressed || r.1 == RpcBinaryEncoding::Base64),
    {
        match encoding {
            RpcBinaryEncoding::Base58 => RPCBinaryEncodedString(bs58_encode(data), encoding),
            RpcBinaryEncoding::Base64 => RPCBinaryEncodedString(base64_encode(data), encoding),
            RpcBinaryEncoding::Base64Compressed => match zstd_encode(data) {
                Some(c) => RPCBinaryEncodedString(base64_encode(&c), encoding),
                None => RPCBinaryEncodedString(base64_encode(data), RpcBinaryEncoding::Base64),
            },
        }
    }
}

/// How finalized a queried state must be.
#[derive(Clone, Copy, PartialEq, Eq, Structural, Debug)]
pub enum RpcCommitment {
    Finalized,
    Confirmed,
    Processed,
}

impl Default for RpcCommitment {
    fn default() -> (r: Self)
        ensures
            r == RpcCommitment::Finalized,
    {
        RpcCommitment::Finalized
    }
}

#[derive(Clone, Copy, PartialEq, Eq, Structural, Debug)]
pub struct RpcResponseContext {
    pub slot: u64,
}

#[derive(Clone, Copy, PartialEq, Eq, Structural, Debug)]
pub struct RpcDataSlice {
    pub offset: usize,
    pub length: usize,
}

#[derive(Clone, Copy, PartialEq, Eq, Structural, Debug)]
pub struct RpcGenericConfigRequest {
    pub commitment: RpcCommitment,
}

#[derive(Clone, Debug)]
pub struct RpcGetAccountInfoRequest {
    pub commitment: RpcCommitment,
    pub encoding: RpcBinaryEncoding,
    pub data_slice: Option<RpcDataSlice>,
    pub min_context_slot: u64,
}

#[derive(Clone, Debug)]
pub struct RpcGetAccountInfoResponse {
    pub context: RpcResponseContext,
    pub value: Option<RpcGetAccountInfoResponseValue>,
}

#[derive(Clone, Debug)]
pub struct RpcGetAccountInfoResponseValue {
    pub lamports: u64,
    pub owner: String,
    pub data: RPCBinaryEncodedString,
    pub executable: bool,
    pub rent_epoch: u64,
}

#[derive(Clone, Copy, PartialEq, Eq, Structural, Debug)]
pub struct RpcGetBalanceRequest {
    pub commitment: RpcCommitment,
    pub min_context_slot: u64,
}

#[derive(Clone, Copy, PartialEq, Eq, Structural, Debug)]
pub struct RpcGetBalanceResponse {
    pub context: RpcResponseContext,
    pub value: u64,
}

#[derive(Clone, Debug)]
pub struct RpcVersionResponse {
    pub solana_core: String,
    pub feature_set: u32,
}

#[derive(Clone, Copy, PartialEq, Eq, Structural, Debug)]
pub struct RpcGetLatestBlockhashRequest {
    pub commitment: RpcCommitment,
}

#[derive(Clone, Debug)]
pub struct RpcGetLatestBlockhashResponse {
    pub context: RpcResponseContext,
    pub value: RpcGetLatestBlockhashResponseValue,
}

#[derive(Clone, Debug)]
pub struct RpcGetLatestBlockhashResponseValue {
    pub blockhash: String,
    pub last_valid_block_height: u64,
}

#[derive(Clone, Debug)]
pub struct RpcSendTransactionRequest {
    pub skip_verify: bool,
    pub pre_flight_commitment: RpcCommitment,
    pub encoding: Option<RpcBinaryEncoding>,
    pub min_context_slot: u64,
}

#[derive(Clone, Debug)]
pub struct RpcSimulateTransactionRequest {
    pub sig_verify: bool,
    pub commitment: RpcCommitment,
    pub encoding: Option<RpcBinaryEncoding>,
    pub replace_recent_blockhash: bool,
    pub accounts: RpcSimulateTransactionRequestAccounts,
    pub min_context_slot: u64,
}

#[derive(Clone, Debug)]
pub struct RpcSimulateTransactionRequestAccounts {
    pub encoding: RpcBinaryEncoding,
    pub addresses: Vec<String>,
}

#[derive(Clone, Debug)]
pub struct RpcSimulateTransactionResponseAccounts {
    pub lamports: u64,
    pub owner: String,
    pub data: RPCBinaryEncodedString,
    pub executable: bool,
    pub rent_epoch: u64,
}

#[derive(Clone, Debug)]
pub struct RpcSimulateTransactionResponseReturnData {
    pub program_id: String,
    pub data: RPCBinaryEncodedString,
}

#[derive(Clone, Copy, PartialEq, Eq, Structural, Debug)]
pub struct RpcGetSignatureStatusesRequest {
    pub search_transaction_history: bool,
}


/// The account-info value reported for a live account: its fields, the
/// owner in base58, the data under the requested encoding.
pub fn account_info_value(
    account: &crate::account::BokkenAccountData,
    encoding: RpcBinaryEncoding,
) -> (r: RpcGetAccountInfoResponseValue)
    ensures
        r.lamports == account.lamports,
        r.executable == account.executable,
        r.rent_epoch == account.rent_epoch,
        r.owner@ == crate::textutil::spec_pubkey_text(account.owner),
        match r.data.1 {
            RpcBinaryEncoding::Base58 => r.data.0@ == bs58_of(account.data@),
            RpcBinaryEncoding::Base64 => r.data.0@ == base64_of(account.data@),
            RpcBinaryEncoding::Base64Compressed => r.data.0@ == base64_of(zstd_of(account.data@)),
        },
        encoding != RpcBinaryEncoding::Base64Compressed ==> r.data.1 == encoding,
{
    RpcGetAccountInfoResponseValue {
        lamports: account.lamports,
        owner: crate::textutil::pubkey_to_string(&account.owner),
        data: RPCBinaryEncodedString::from_bytes(&account.data, encoding),
        executable: account.executable,
        rent_epoch: account.rent_epoch,
    }
}

/// The account-info response: an absent (zero-lamport) account reports no
/// value at all.
pub fn get_account_info_response(
    slot: u64,
    account: &crate::account::BokkenAccountData,
    encoding: RpcBinaryEncoding,
) -> (r: RpcGetAccountInfoResponse)
    ensures
        r.context.slot == slot,
        (r.value is Some) <==> account.lamports != 0,
        r.value matches Some(v) ==> v.lamports == account.lamports,
{
    RpcGetAccountInfoResponse {
        context: RpcResponseContext { slot },
        value: if account.lamports == 0 {
            None
        } else {
            Some(account_info_value(account, encoding))
        },
    }
}

/// The balance response: the slot and the account's lamports.
pub fn get_balance_response(slot: u64, lamports: u64) -> (r: RpcGetBalanceResponse)
    ensures
        r.context.slot == slot,
        r.value == lamports,
{
    RpcGetBalanceResponse { context: RpcResponseContext { slot }, value: lamports }
}

/// The latest-blockhash response, with the hash in base58.
pub fn get_latest_blockhash_response(slot: u64, blockhash: &Vec<u8>) -> (r:
    RpcGetLatestBlockhashResponse)
    ensures
        r.context.slot == slot,
        r.value.blockhash@ == bs58_of(blockhash@),
        r.value.last_valid_block_height == 100,
{
    RpcGetLatestBlockhashResponse {
        context: RpcResponseContext { slot },
        value: RpcGetLatestBlockhashResponseValue {
            blockhash: bs58_encode(blockhash),
            last_valid_block_height: 100,
        },
    }
}

/// The reported software version.
pub fn get_version_response() -> (r: RpcVersionResponse)
    ensures
        r.solana_core@ == "1.13.5+debug-validator-0.0.1"@,
        r.feature_set == 0,
{
    RpcVersionResponse {
        solana_core: String::from_str("1.13.5+debug-validator-0.0.1"),
        feature_set: 0,
    }
}

} // verus!
