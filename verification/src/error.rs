//! The validator's error kinds. Outside errors reach the library only as
//! these variants; the process-facing text lives in `message`.

use vstd::prelude::*;

verus! {

/// Everything the validator side can fail with.
#[derive(Clone, PartialEq, Eq, Debug)]
pub enum BokkenError {
    ShouldNotHappen,
    IO(String),
    InitConfigIsNone,
    Unimplemented,
    Base64DecodeError,
    Base58DecodeError,
    BincodeDecodeError,
    AccountNotFound,
    InsufficientFundsForFee,
    SanitizeError,
    PubkeyParseError,
    ProgramClosedConnection,
    Stopping,
    /// The instruction at this index returned this non-zero code; the logs
    /// gathered up to the abort ride along.
    InstructionExecError(usize, u64, Vec<String>),
    MaximumSerializationLengthExceeded(usize, usize),
    CannotAppendToIndex,
    UnexpectedEOF,
    IndexFileOutOfBounds(usize, usize),
    InvalidSignatureLength,
}

impl BokkenError {
    /// A short description, standing in for the display form.
    pub fn message(&self) -> (r: String)
        ensures
            r@.len() > 0,
    {
        let r = match self {
            BokkenError::ShouldNotHappen => String::from_str("This shouldn't happen!"),
            BokkenError::IO(m) => String::from_str("IO Error: ").concat(m.as_str()),
            BokkenError::InitConfigIsNone => String::from_str(
                "All initialization options must be specified if a pre-existing state doesn't exist at the path provided",
            ),
            BokkenError::Unimplemented => String::from_str("this feature is unimplemented"),
            BokkenError::Base64DecodeError => String::from_str("Base64 Error"),
            BokkenError::Base58DecodeError => String::from_str("Base58 Error"),
            BokkenError::BincodeDecodeError => String::from_str("Bincode Error"),
            BokkenError::AccountNotFound => String::from_str("Solana tx error: AccountNotFound"),
            BokkenError::InsufficientFundsForFee => String::from_str(
                "Solana tx error: InsufficientFundsForFee",
            ),
            BokkenError::SanitizeError => String::from_str("Sanitize error"),
            BokkenError::PubkeyParseError => String::from_str("Pubkey parse error"),
            BokkenError::ProgramClosedConnection => String::from_str(
                "Connection to program dropped while waiting for execution result",
            ),
            BokkenError::Stopping => String::from_str("The program is stopping"),
            BokkenError::InstructionExecError(_, code, _) => String::from_str(
                "Program returned: ",
            ).concat(crate::textutil::u64_to_string(*code).as_str()),
            BokkenError::MaximumSerializationLengthExceeded(_, _) => String::from_str(
                "Couldn't serialize; encoded size exceeds the maximum",
            ),
            BokkenError::CannotAppendToIndex => String::from_str(
                "Cannot append data to the end of the index as the identifiers would be unsorted",
            ),
            BokkenError::UnexpectedEOF => String::from_str("Unexpected end of file"),
            BokkenError::IndexFileOutOfBounds(_, _) => String::from_str(
                "Indexed file out of bounds",
            ),
            BokkenError::InvalidSignatureLength => String::from_str("Invalid signature length"),
        };
        proof {
            reveal_strlit("This shouldn't happen!");
            reveal_strlit("IO Error: ");
            reveal_strlit(
                "All initialization options must be specified if a pre-existing state doesn't exist at the path provided",
            );
            reveal_strlit("this feature is unimplemented");
            reveal_strlit("Base64 Error");
            reveal_strlit("Base58 Error");
            reveal_strlit("Bincode Error");
            reveal_strlit("Solana tx error: AccountNotFound");
            reveal_strlit("Solana tx error: InsufficientFundsForFee");
            reveal_strlit("Sanitize error");
            reveal_strlit("Pubkey parse error");
            reveal_strlit("Connection to program dropped while waiting for execution result");
            reveal_strlit("The program is stopping");
            reveal_strlit("Program returned: ");
            reveal_strlit("Couldn't serialize; encoded size exceeds the maximum");
            reveal_strlit("Cannot append data to the end of the index as the identifiers would be unsorted");
            reveal_strlit("Unexpected end of file");
            reveal_strlit("Indexed file out of bounds");
            reveal_strlit("Invalid signature length");
        }
        r
    }
}

} // verus!
