//! The exercise program shipped with the emulator: it logs, increments two
//! counters kept in its account's data, and recurses into itself over CPI
//! to a requested depth. Its instruction wire form is a one-byte tag with
//! little-endian fields.

use crate::account::{BorshAccountMeta, ProgramError, Pubkey};
use crate::bytesutil::{push_u64_le, push_u8, read_u64_le};
use vstd::bytes::spec_u64_to_le_bytes;
use vstd::prelude::*;

verus! {

/// The instructions the test program understands.
#[derive(Clone, Copy, PartialEq, Eq, Structural, Debug)]
pub enum TestProgramInstruction {
    HelloWorld,
    IncrementNumber { amount: u64 },
    RecurseThenIncrementNumber { call_depth: u8, amount: u64 },
}

/// The wire form: a tag byte, then the fields little-endian.
pub open spec fn spec_test_ix_bytes(ix: TestProgramInstruction) -> Seq<u8> {
    match ix {
        TestProgramInstruction::HelloWorld => seq![0u8],
        TestProgramInstruction::IncrementNumber { amount } => seq![1u8] + spec_u64_to_le_bytes(
            amount,
        ),
        TestProgramInstruction::RecurseThenIncrementNumber { call_depth, amount } => seq![
            2u8,
            call_depth,
        ] + spec_u64_to_le_bytes(amount),
    }
}

impl TestProgramInstruction {
    /// Encode for sending (the recursion step builds its own instruction).
    pub fn pack(&self) -> (r: Vec<u8>)
        ensures
            r@ == spec_test_ix_bytes(*self),
    {
        let mut r: Vec<u8> = Vec::new();
        match self {
            TestProgramInstruction::HelloWorld => {
                push_u8(&mut r, 0);
                proof {
                    assert(r@ =~= spec_test_ix_bytes(*self));
                }
            },
            TestProgramInstruction::IncrementNumber { amount } => {
                push_u8(&mut r, 1);
                push_u64_le(&mut r, *amount);
                proof {
                    assert(r@ =~= spec_test_ix_bytes(*self));
                }
            },
            TestProgramInstruction::RecurseThenIncrementNumber { call_depth, amount } => {
                push_u8(&mut r, 2);
                push_u8(&mut r, *call_depth);
                push_u64_le(&mut r, *amount);
                proof {
                    assert(r@ =~= spec_test_ix_bytes(*self));
                }
            },
        }
        r
    }

    /// Decode an instruction; accepts exactly the encodings of `pack`.
    pub fn unpack(input: &Vec<u8>) -> (r: Result<TestProgramInstruction, ProgramError>)
        ensures
            match r {
                Ok(ix) => input@ == spec_test_ix_bytes(ix),
                Err(e) => e == ProgramError::InvalidInstructionData && forall|
                    ix: TestProgramInstruction,
                |
                    input@ != spec_test_ix_bytes(ix),
            },
    {
        let blen: usize = input.len();
        if blen == 0 {
            proof {
                assert forall|ix: TestProgramInstruction| input@ != spec_test_ix_bytes(ix) by {
                    assert(spec_test_ix_bytes(ix).len() > 0);
                }
            }
            return Err(ProgramError::InvalidInstructionData);
        }
        let tag = input[0];
        proof {
            vstd::bytes::lemma_auto_spec_u64_to_from_le_bytes();
        }
        if tag == 0 && blen == 1 {
            let ix = TestProgramInstruction::HelloWorld;
            proof {
                assert(input@ =~= spec_test_ix_bytes(ix));
            }
            Ok(ix)
        } else if tag == 1 && blen == 9 {
            let amount = read_u64_le(input, 1);
            let ix = TestProgramInstruction::IncrementNumber { amount };
            proof {
                assert(input@.subrange(1, 9) =~= spec_u64_to_le_bytes(amount));
                assert(input@ =~= spec_test_ix_bytes(ix));
            }
            Ok(ix)
        } else if tag == 2 && blen == 10 {
            let call_depth = input[1];
            let amount = read_u64_le(input, 2);
            let ix = TestProgramInstruction::RecurseThenIncrementNumber { call_depth, amount };
            proof {
                assert(input@.subrange(2, 10) =~= spec_u64_to_le_bytes(amount));
                assert(input@ =~= spec_test_ix_bytes(ix));
            }
            Ok(ix)
        } else {
            proof {
                assert forall|ix: TestProgramInstruction| input@ != spec_test_ix_bytes(ix) by {
                    if input@ == spec_test_ix_bytes(ix) {
                        match ix {
                            TestProgramInstruction::HelloWorld => {
                                assert(input@[0] == 0u8 && input@.len() == 1);
                            },
                            TestProgramInstruction::IncrementNumber { amount } => {
                                assert(input@[0] == 1u8 && input@.len() == 9);
                            },
                            TestProgramInstruction::RecurseThenIncrementNumber {
                                call_depth,
                                amount,
                            } => {
                                assert(input@[0] == 2u8 && input@.len() == 10);
                            },
                        }
                    }
                }
            }
            Err(ProgramError::InvalidInstructionData)
        }
    }
}

/// The state the test program keeps in its account: two counters.
#[derive(Clone, Copy, PartialEq, Eq, Structural, Debug)]
pub struct TestProgramState {
    pub property1: u64,
    pub property2: u64,
}

/// The 16-byte account form of the state.
pub open spec fn spec_state_bytes(s: TestProgramState) -> Seq<u8> {
    spec_u64_to_le_bytes(s.property1) + spec_u64_to_le_bytes(s.property2)
}

impl TestProgramState {
    pub fn to_bytes(&self) -> (r: Vec<u8>)
        ensures
            r@ == spec_state_bytes(*self),
            r@.len() == 16,
    {
        proof {
            vstd::bytes::lemma_auto_spec_u64_to_from_le_bytes();
        }
        let mut r: Vec<u8> = Vec::new();
        push_u64_le(&mut r, self.property1);
        push_u64_le(&mut r, self.property2);
        r
    }

    pub fn from_bytes(b: &Vec<u8>) -> (r: Option<TestProgramState>)
        ensures
            match r {
                Some(s) => b@ == spec_state_bytes(s),
                None => b@.len() != 16,
            },
    {
        proof {
            vstd::bytes::lemma_auto_spec_u64_to_from_le_bytes();
        }
        if b.len() != 16 {
            return None;
        }
        let property1 = read_u64_le(b, 0);
        let property2 = read_u64_le(b, 8);
        let s = TestProgramState { property1, property2 };
        proof {
            assert(b@.subrange(0, 8) =~= spec_u64_to_le_bytes(property1));
            assert(b@.subrange(8, 16) =~= spec_u64_to_le_bytes(property2));
            assert(b@ =~= spec_state_bytes(s));
        }
        Some(s)
    }

    /// Add `num` to the first counter and `2 * num` to the second.
    pub fn increment(&mut self, num: u64) -> (r: Result<(), ProgramError>)
        ensures
            (r is Ok) <==> old(self).property1 + num <= u64::MAX && old(self).property2 + 2 * num
                <= u64::MAX,
            (r is Ok) ==> final(self).property1 == old(self).property1 + num && final(self).property2 == old(self).property2 + 2 * num,
            (r is Err) ==> *final(self) == *old(self) && r == (Result::<(), ProgramError>::Err(
                ProgramError::ArithmeticOverflow,
            )),
    {
        if num > u64::MAX - self.property1 {
            return Err(ProgramError::ArithmeticOverflow);
        }
        if num > u64::MAX / 2 || 2 * num > u64::MAX - self.property2 {
            return Err(ProgramError::ArithmeticOverflow);
        }
        self.property1 = self.property1 + num;
        self.property2 = self.property2 + 2 * num;
        Ok(())
    }
}

/// Apply the increment instruction to the raw account data: the account
/// must hold exactly one 16-byte state record, and both counters must stay
/// in range.
pub fn process_increment_number(data: &Vec<u8>, number: u64) -> (r: Result<Vec<u8>, ProgramError>)
    ensures
        match r {
            Ok(out) => {
                exists|s: TestProgramState, s2: TestProgramState|
                    data@ == #[trigger] spec_state_bytes(s) && out@ == #[trigger] spec_state_bytes(
                        s2,
                    ) && s2.property1 == s.property1 + number && s2.property2 == s.property2 + 2
                        * number
            },
            Err(ProgramError::InvalidAccountData) => data@.len() != 16,
            Err(ProgramError::ArithmeticOverflow) => exists|s: TestProgramState|
                data@ == #[trigger] spec_state_bytes(s) && (s.property1 + number > u64::MAX
                    || s.property2 + 2 * number > u64::MAX),
            Err(_) => false,
        },
{
    let mut state = match TestProgramState::from_bytes(data) {
        Some(s) => s,
        None => {
            return Err(ProgramError::InvalidAccountData);
        },
    };
    let ghost s0 = state;
    match state.increment(number) {
        Ok(_) => {},
        Err(e) => {
            return Err(e);
        },
    }
    let out = state.to_bytes();
    proof {
        assert(data@ == spec_state_bytes(s0) && out@ == spec_state_bytes(state)
            && state.property1 == s0.property1 + number && state.property2 == s0.property2 + 2
            * number);
    }
    Ok(out)
}

/// The nested instruction the recursion step issues: one level shallower,
/// or the final increment at depth zero, always against the same writable,
/// unsigned account.
pub fn process_recurse_then_increment_number(account: &Pubkey, depth: u8, number: u64) -> (r: (
    Vec<u8>,
    Vec<BorshAccountMeta>,
))
    ensures
        depth == 0 ==> r.0@ == spec_test_ix_bytes(
            TestProgramInstruction::IncrementNumber { amount: number },
        ),
        depth > 0 ==> r.0@ == spec_test_ix_bytes(
            TestProgramInstruction::RecurseThenIncrementNumber {
                call_depth: (depth - 1) as u8,
                amount: number,
            },
        ),
        r.1@.len() == 1,
        r.1@[0] == (BorshAccountMeta { pubkey: *account, is_signer: false, is_writable: true }),
{
    let ix = if depth == 0 {
        TestProgramInstruction::IncrementNumber { amount: number }
    } else {
        TestProgramInstruction::RecurseThenIncrementNumber {
            call_depth: depth - 1,
            amount: number,
        }
    };
    let mut metas: Vec<BorshAccountMeta> = Vec::new();
    metas.push(BorshAccountMeta { pubkey: *account, is_signer: false, is_writable: true });
    (ix.pack(), metas)
}


/// What one dispatch of the test program asks its runtime to do next.
pub enum TestProgramOutcome {
    /// Nothing but the greeting log.
    Logged,
    /// The account's data was rewritten.
    Updated { new_data: Vec<u8> },
    /// Reinvoke the program itself with this instruction and meta.
    NeedCpi { instruction: Vec<u8>, account_metas: Vec<BorshAccountMeta> },
}

/// The test program's entry dispatch: decode the instruction and decide
/// the outcome on the first account's data.
pub fn process_instruction(
    instruction_data: &Vec<u8>,
    account_pubkey: &Pubkey,
    account_data: &Vec<u8>,
) -> (r: Result<TestProgramOutcome, ProgramError>)
    ensures
        match r {
            Ok(TestProgramOutcome::Logged) => instruction_data@ == spec_test_ix_bytes(
                TestProgramInstruction::HelloWorld,
            ),
            Ok(TestProgramOutcome::Updated { new_data }) => exists|
                amount: u64,
                s: TestProgramState,
                s2: TestProgramState,
            |
                instruction_data@ == #[trigger] spec_test_ix_bytes(
                    TestProgramInstruction::IncrementNumber { amount },
                ) && account_data@ == #[trigger] spec_state_bytes(s) && new_data@
                    == #[trigger] spec_state_bytes(s2) && s2.property1 == s.property1 + amount
                    && s2.property2 == s.property2 + 2 * amount,
            Ok(TestProgramOutcome::NeedCpi { instruction, account_metas }) => exists|
                call_depth: u8,
                amount: u64,
            |
                instruction_data@ == #[trigger] spec_test_ix_bytes(
                    TestProgramInstruction::RecurseThenIncrementNumber { call_depth, amount },
                ) && (call_depth == 0 ==> instruction@ == spec_test_ix_bytes(
                    TestProgramInstruction::IncrementNumber { amount },
                )) && (call_depth > 0 ==> instruction@ == spec_test_ix_bytes(
                    TestProgramInstruction::RecurseThenIncrementNumber {
                        call_depth: (call_depth - 1) as u8,
                        amount,
                    },
                )) && account_metas@.len() == 1 && account_metas@[0] == (BorshAccountMeta {
                    pubkey: *account_pubkey,
                    is_signer: false,
                    is_writable: true,
                }),
            Err(ProgramError::InvalidInstructionData) => forall|ix: TestProgramInstruction|
                instruction_data@ != spec_test_ix_bytes(ix),
            Err(ProgramError::InvalidAccountData) => account_data@.len() != 16 && exists|
                amount: u64,
            |
                instruction_data@ == #[trigger] spec_test_ix_bytes(
                    TestProgramInstruction::IncrementNumber { amount },
                ),
            Err(ProgramError::ArithmeticOverflow) => exists|amount: u64, s: TestProgramState|
                instruction_data@ == #[trigger] spec_test_ix_bytes(
                    TestProgramInstruction::IncrementNumber { amount },
                ) && account_data@ == #[trigger] spec_state_bytes(s) && (s.property1 + amount
                    > u64::MAX || s.property2 + 2 * amount > u64::MAX),
            Err(_) => false,
        },
{
    let ix = match TestProgramInstruction::unpack(instruction_data) {
        Ok(ix) => ix,
        Err(e) => {
            return Err(e);
        },
    };
    match ix {
        TestProgramInstruction::HelloWorld => Ok(TestProgramOutcome::Logged),
        TestProgramInstruction::IncrementNumber { amount } => {
            match process_increment_number(account_data, amount) {
                Ok(new_data) => Ok(TestProgramOutcome::Updated { new_data }),
                Err(e) => Err(e),
            }
        },
        TestProgramInstruction::RecurseThenIncrementNumber { call_depth, amount } => {
            let (instruction, account_metas) = process_recurse_then_increment_number(account_pubkey, call_depth, amount);
            Ok(TestProgramOutcome::NeedCpi { instruction, account_metas })
        },
    }
}

} // verus!
