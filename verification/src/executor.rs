//! The per-transaction instruction executor: collect the unique signers,
//! charge the fee, drive the instructions in order at depth 1, diff the
//! final state against the loaded state, and decide what is committed. The
//! outside world (ledger files, channels) acts only on the values these
//! functions return.

use crate::account::{account_eq, AccountMap, AccountView, BokkenAccountData, BorshAccountMeta, Pubkey};
use crate::error::BokkenError;
use crate::LAMPORTS_PER_SIGNATURE;
use vstd::prelude::*;

verus! {

/// One instruction of a transaction, with its resolved metas.
pub struct BokkenLedgerInstruction {
    pub program_id: Pubkey,
    pub account_metas: Vec<BorshAccountMeta>,
    pub data: Vec<u8>,
}

/// Which accounts the caller wants back after execution.
pub enum BokkenLedgerAccountReturnChoice {
    NoAccounts,
    All,
    Edited,
    Only(Vec<Pubkey>),
}

/// Whether `pk` signs somewhere in the transaction: as fee payer or in a
/// signer meta of any instruction.
pub open spec fn spec_is_signer_key(
    fee_payer: Pubkey,
    instructions: Seq<BokkenLedgerInstruction>,
    pk: Pubkey,
) -> bool {
    pk == fee_payer || exists|i: int, j: int|
        0 <= i < instructions.len() && 0 <= j < instructions[i].account_metas@.len()
            && (#[trigger] instructions[i].account_metas@[j]).is_signer
            && instructions[i].account_metas@[j].pubkey == pk
}

/// The distinct signing pubkeys of a transaction: the fee payer plus every
/// signer meta, each once.
pub fn collect_unique_signers(fee_payer: &Pubkey, instructions: &Vec<BokkenLedgerInstruction>) -> (r:
    Vec<Pubkey>)
    ensures
        forall|k1: int, k2: int| 0 <= k1 < k2 < r@.len() ==> r@[k1] != r@[k2],
        forall|pk: Pubkey|
            r@.contains(pk) <==> spec_is_signer_key(*fee_payer, instructions@, pk),
{
    let mut r: Vec<Pubkey> = Vec::new();
    r.push(*fee_payer);
    proof {
        assert(r@[0] == *fee_payer);
        assert forall|pk: Pubkey| #[trigger] r@.contains(pk) implies pk == *fee_payer by {
            let w = choose|w: int| 0 <= w < r@.len() && r@[w] == pk;
        }
    }
    let mut i: usize = 0;
    while i < instructions.len()
        invariant
            i <= instructions@.len(),
            forall|k1: int, k2: int| 0 <= k1 < k2 < r@.len() ==> r@[k1] != r@[k2],
            r@.contains(*fee_payer),
            forall|pk: Pubkey|
                #[trigger] r@.contains(pk) <==> (pk == *fee_payer || exists|x: int, j: int|
                    0 <= x < i && 0 <= j < instructions@[x].account_metas@.len()
                        && (#[trigger] instructions@[x].account_metas@[j]).is_signer
                        && instructions@[x].account_metas@[j].pubkey == pk),
        decreases instructions@.len() - i,
    {
        let metas = &instructions[i].account_metas;
        let mut j: usize = 0;
        while j < metas.len()
            invariant
                i < instructions@.len(),
                metas == &instructions@[i as int].account_metas,
                j <= metas@.len(),
                forall|k1: int, k2: int| 0 <= k1 < k2 < r@.len() ==> r@[k1] != r@[k2],
                r@.contains(*fee_payer),
                forall|pk: Pubkey|
                    #[trigger] r@.contains(pk) <==> (pk == *fee_payer || (exists|x: int, y: int|
                        0 <= x < i && 0 <= y < instructions@[x].account_metas@.len()
                            && (#[trigger] instructions@[x].account_metas@[y]).is_signer
                            && instructions@[x].account_metas@[y].pubkey == pk) || (exists|y: int|
                        0 <= y < j && (#[trigger] metas@[y]).is_signer && metas@[y].pubkey == pk)),
            decreases metas@.len() - j,
        {
            let ghost r_pre = r@;
            let meta = metas[j];
            if meta.is_signer && !vec_contains_pubkey(&r, &meta.pubkey) {
                r.push(meta.pubkey);
                proof {
                    assert forall|pk: Pubkey| #[trigger] r@.contains(pk) <==> (r_pre.contains(pk)
                        || pk == meta.pubkey) by {
                        if r@.contains(pk) {
                            let w = choose|w: int| 0 <= w < r@.len() && r@[w] == pk;
                            if w < r_pre.len() {
                                assert(r_pre[w] == pk);
                            }
                        }
                        if r_pre.contains(pk) {
                            let w = choose|w: int| 0 <= w < r_pre.len() && r_pre[w] == pk;
                            assert(r@[w] == pk);
                        }
                        if pk == meta.pubkey {
                            assert(r@[r@.len() - 1] == pk);
                        }
                    }
                }
            }
            proof {
                assert forall|pk: Pubkey| #[trigger] r@.contains(pk) implies (pk == *fee_payer || (
                exists|x: int, y: int|
                    0 <= x < i && 0 <= y < instructions@[x].account_metas@.len()
                        && (#[trigger] instructions@[x].account_metas@[y]).is_signer
                        && instructions@[x].account_metas@[y].pubkey == pk) || (exists|y: int|
                    0 <= y < j + 1 && (#[trigger] metas@[y]).is_signer && metas@[y].pubkey
                        == pk)) by {}
                assert forall|pk: Pubkey|
                    (pk == *fee_payer || (exists|x: int, y: int|
                        0 <= x < i && 0 <= y < instructions@[x].account_metas@.len()
                            && (#[trigger] instructions@[x].account_metas@[y]).is_signer
                            && instructions@[x].account_metas@[y].pubkey == pk) || (exists|y: int|
                        0 <= y < j + 1 && (#[trigger] metas@[y]).is_signer && metas@[y].pubkey
                            == pk)) implies #[trigger] r@.contains(pk) by {
                    if exists|y: int|
                        0 <= y < j + 1 && (#[trigger] metas@[y]).is_signer && metas@[y].pubkey
                            == pk {
                        let y = choose|y: int|
                            0 <= y < j + 1 && (#[trigger] metas@[y]).is_signer && metas@[y].pubkey
                                == pk;
                    }
                }
            }
            j = j + 1;
        }
        proof {
            assert forall|pk: Pubkey| #[trigger] r@.contains(pk) <==> (pk == *fee_payer || exists|
                x: int,
                y: int,
            |
                0 <= x < i + 1 && 0 <= y < instructions@[x].account_metas@.len()
                    && (#[trigger] instructions@[x].account_metas@[y]).is_signer
                    && instructions@[x].account_metas@[y].pubkey == pk) by {
                if exists|x: int, y: int|
                    0 <= x < i + 1 && 0 <= y < instructions@[x].account_metas@.len()
                        && (#[trigger] instructions@[x].account_metas@[y]).is_signer
                        && instructions@[x].account_metas@[y].pubkey == pk {
                    let (x, y) = choose|x: int, y: int|
                        0 <= x < i + 1 && 0 <= y < instructions@[x].account_metas@.len()
                            && (#[trigger] instructions@[x].account_metas@[y]).is_signer
                            && instructions@[x].account_metas@[y].pubkey == pk;
                    if x == i {
                        assert(metas@[y].is_signer && metas@[y].pubkey == pk);
                    }
                }
            }
        }
        i = i + 1;
    }
    r
}

/// Linear membership test.
pub fn vec_contains_pubkey(v: &Vec<Pubkey>, pk: &Pubkey) -> (r: bool)
    ensures
        r == v@.contains(*pk),
{
    let mut i: usize = 0;
    while i < v.len()
        invariant
            i <= v@.len(),
            forall|k: int| 0 <= k < i ==> v@[k] != *pk,
        decreases v@.len() - i,
    {
        if v[i] == *pk {
            return true;
        }
        i = i + 1;
    }
    proof {
        if v@.contains(*pk) {
            let w = choose|w: int| 0 <= w < v@.len() && v@[w] == *pk;
        }
    }
    false
}

/// Charge the transaction fee: exactly `LAMPORTS_PER_SIGNATURE` per unique
/// signer, taken from the fee payer before any instruction runs; the whole
/// transaction is rejected when the balance does not cover it.
pub fn apply_fee(accounts: &mut AccountMap, fee_payer: &Pubkey, unique_signers: usize) -> (r:
    Result<(), BokkenError>)
    requires
        old(accounts)@.dom().contains(*fee_payer),
    ensures
        (r is Ok) <==> LAMPORTS_PER_SIGNATURE * unique_signers <= old(
            accounts,
        )@[*fee_payer].lamports,
        (r is Ok) ==> final(accounts)@ == old(accounts)@.insert(
            *fee_payer,
            AccountView {
                lamports: (old(accounts)@[*fee_payer].lamports - LAMPORTS_PER_SIGNATURE
                    * unique_signers) as u64,
                ..old(accounts)@[*fee_payer]
            },
        ),
        (r is Err) ==> final(accounts)@ == old(accounts)@ && r == (Result::<(), BokkenError>::Err(
            BokkenError::InsufficientFundsForFee,
        )),
{
    let payer = match accounts.get(fee_payer) {
        Some(a) => a.duplicate(),
        None => {
            proof {
                assert(false);
            }
            BokkenAccountData::empty()
        },
    };
    let us64 = unique_signers as u64;
    if us64 > u64::MAX / LAMPORTS_PER_SIGNATURE {
        proof {
            assert(LAMPORTS_PER_SIGNATURE * us64 > u64::MAX) by (nonlinear_arith)
                requires
                    us64 > u64::MAX / LAMPORTS_PER_SIGNATURE,
            ;
            assert(payer@.lamports <= u64::MAX);
        }
        return Err(BokkenError::InsufficientFundsForFee);
    }
    proof {
        assert(LAMPORTS_PER_SIGNATURE * us64 <= u64::MAX) by (nonlinear_arith)
            requires
                us64 <= u64::MAX / LAMPORTS_PER_SIGNATURE,
        ;
    }
    let fee = LAMPORTS_PER_SIGNATURE * us64;
    if payer.lamports < fee {
        return Err(BokkenError::InsufficientFundsForFee);
    }
    let mut payer2 = payer;
    payer2.lamports = payer2.lamports - fee;
    accounts.insert(*fee_payer, payer2);
    Ok(())
}

/// The accounts an instruction is handed: the clock and rent sysvars plus
/// every meta's account, taken out of the working state. Fails, as account
/// not found, exactly when some meta names an account the state does not
/// hold; only meta accounts ever leave the state, unchanged in value.
pub fn assemble_instruction_accounts(
    state: &mut AccountMap,
    metas: &Vec<BorshAccountMeta>,
    clock_id: &Pubkey,
    rent_id: &Pubkey,
) -> (r: Result<AccountMap, BokkenError>)
    requires
        old(state)@.dom().contains(*clock_id),
        old(state)@.dom().contains(*rent_id),
    ensures
        (r is Ok) <==> (forall|j: int|
            0 <= j < metas@.len() ==> old(state)@.dom().contains(#[trigger] metas@[j].pubkey)),
        forall|q: Pubkey|
            #[trigger] final(state)@.dom().contains(q) ==> old(state)@.dom().contains(q) && final(state)@[q] == old(state)@[q],
        forall|q: Pubkey|
            old(state)@.dom().contains(q) && !(exists|j: int|
                0 <= j < metas@.len() && (#[trigger] metas@[j]).pubkey == q) ==> #[trigger] final(state)@.dom().contains(q),
        match r {
            Ok(sub) => {
                &&& sub@.dom().contains(*clock_id)
                &&& sub@.dom().contains(*rent_id)
                &&& forall|j: int|
                    0 <= j < metas@.len() ==> sub@.dom().contains(
                        #[trigger] metas@[j].pubkey,
                    )
                &&& forall|q: Pubkey|
                    #[trigger] sub@.dom().contains(q) ==> sub@[q] == old(state)@[q]
                &&& forall|q: Pubkey|
                    #[trigger] sub@.dom().contains(q) ==> (q == *clock_id || q == *rent_id
                        || exists|j: int| 0 <= j < metas@.len() && (#[trigger] metas@[j]).pubkey == q)
                &&& forall|q: Pubkey|
                    #[trigger] final(state)@.dom().contains(q) <==> (old(state)@.dom().contains(q) && !(sub@.dom().contains(q) && q != *clock_id && q
                        != *rent_id))
                &&& forall|q: Pubkey|
                    final(state)@.dom().contains(q) ==> #[trigger] final(state)@[q] == old(state)@[q]
            },
            Err(e) => e == BokkenError::AccountNotFound,
        },
{
    let mut sub = AccountMap::new();
    let clock = match state.get(clock_id) {
        Some(a) => a.duplicate(),
        None => {
            proof {
                assert(false);
            }
            BokkenAccountData::empty()
        },
    };
    sub.insert(*clock_id, clock);
    let rent = match state.get(rent_id) {
        Some(a) => a.duplicate(),
        None => {
            proof {
                assert(false);
            }
            BokkenAccountData::empty()
        },
    };
    sub.insert(*rent_id, rent);
    let mut j: usize = 0;
    while j < metas.len()
        invariant
            j <= metas@.len(),
            sub@.dom().contains(*clock_id),
            sub@.dom().contains(*rent_id),
            old(state)@.dom().contains(*clock_id),
            old(state)@.dom().contains(*rent_id),
            forall|k: int| 0 <= k < j ==> sub@.dom().contains(#[trigger] metas@[k].pubkey),
            forall|k: int|
                0 <= k < j ==> old(state)@.dom().contains(#[trigger] metas@[k].pubkey),
            forall|q: Pubkey|
                #[trigger] sub@.dom().contains(q) ==> old(state)@.dom().contains(q) && sub@[q]
                    == old(state)@[q],
            forall|q: Pubkey|
                #[trigger] sub@.dom().contains(q) ==> (q == *clock_id || q == *rent_id || exists|
                    k: int,
                |
                    0 <= k < j && (#[trigger] metas@[k]).pubkey == q),
            forall|q: Pubkey|
                #[trigger] state@.dom().contains(q) <==> (old(state)@.dom().contains(q) && !(
                sub@.dom().contains(q) && q != *clock_id && q != *rent_id)),
            forall|q: Pubkey|
                state@.dom().contains(q) ==> #[trigger] state@[q] == old(state)@[q],
        decreases metas@.len() - j,
    {
        let pk = metas[j].pubkey;
        if !sub.contains_key(&pk) {
            match state.remove(&pk) {
                Some(a) => {
                    sub.insert(pk, a);
                },
                None => {
                    proof {
                        assert(!old(state)@.dom().contains(metas@[j as int].pubkey));
                    }
                    return Err(BokkenError::AccountNotFound);
                },
            }
        }
        j = j + 1;
    }
    Ok(sub)
}

/// Splice the accounts an instruction returned back into the working state.
pub fn merge_returned_accounts(state: &mut AccountMap, returned: AccountMap)
    ensures
        forall|q: Pubkey|
            #[trigger] final(state)@.dom().contains(q) <==> (old(state)@.dom().contains(q)
                || returned@.dom().contains(q)),
        forall|q: Pubkey|
            returned@.dom().contains(q) ==> final(state)@.dom().contains(q) && #[trigger] final(state)@[q] == returned@[q],
        forall|q: Pubkey|
            final(state)@.dom().contains(q) && !returned@.dom().contains(q)
                ==> #[trigger] final(state)@[q] == old(state)@[q],
{
    let n = returned.len();
    let mut j: usize = 0;
    while j < n
        invariant
            j <= n,
            n == returned.key_seq().len(),
            forall|q: Pubkey|
                #[trigger] returned@.dom().contains(q) <==> returned.key_seq().contains(q),
            forall|k1: int, k2: int|
                0 <= k1 < k2 < returned.key_seq().len() ==> returned.key_seq()[k1]
                    != returned.key_seq()[k2],
            forall|q: Pubkey|
                #[trigger] state@.dom().contains(q) <==> (old(state)@.dom().contains(q) || exists|
                    k: int,
                |
                    0 <= k < j && returned.key_seq()[k] == q),
            forall|k: int|
                0 <= k < j ==> #[trigger] state@[returned.key_seq()[k]]
                    == returned@[returned.key_seq()[k]],
            forall|q: Pubkey|
                state@.dom().contains(q) && !(exists|k: int|
                    0 <= k < j && returned.key_seq()[k] == q) ==> #[trigger] state@[q] == old(state)@[q],
        decreases n - j,
    {
        let pk = returned.key_at(j);
        let a = returned.value_at(j).duplicate();
        state.insert(pk, a);
        proof {
            assert(returned.key_seq()[j as int] == pk);
            assert forall|k: int|
                0 <= k < j + 1 implies #[trigger] state@[returned.key_seq()[k]]
                == returned@[returned.key_seq()[k]] by {
                if k < j {
                    assert(returned.key_seq()[k] != pk);
                }
            }
        }
        j = j + 1;
    }
    proof {
        assert forall|q: Pubkey|
            returned@.dom().contains(q) implies final(state)@.dom().contains(q) && #[trigger] final(state)@[q] == returned@[q] by {
            let k = choose|k: int|
                0 <= k < returned.key_seq().len() && returned.key_seq()[k] == q;
            assert(state@[returned.key_seq()[k]] == returned@[returned.key_seq()[k]]);
        }
    }
}

/// The pubkeys whose value now differs from what was loaded: what a commit
/// writes back.
pub fn diff_accounts(loaded: &AccountMap, changed: &AccountMap) -> (r: AccountMap)
    requires
        forall|q: Pubkey|
            #[trigger] loaded@.dom().contains(q) ==> changed@.dom().contains(q),
    ensures
        forall|q: Pubkey|
            #[trigger] r@.dom().contains(q) <==> (loaded@.dom().contains(q) && changed@[q]
                != loaded@[q]),
        forall|q: Pubkey| #[trigger] r@.dom().contains(q) ==> r@[q] == changed@[q],
{
    let mut r = AccountMap::new();
    let n = loaded.len();
    let mut j: usize = 0;
    while j < n
        invariant
            j <= n,
            n == loaded.key_seq().len(),
            forall|q: Pubkey|
                #[trigger] loaded@.dom().contains(q) <==> loaded.key_seq().contains(q),
            forall|k1: int, k2: int|
                0 <= k1 < k2 < loaded.key_seq().len() ==> loaded.key_seq()[k1]
                    != loaded.key_seq()[k2],
            forall|q: Pubkey|
                #[trigger] loaded@.dom().contains(q) ==> changed@.dom().contains(q),
            forall|q: Pubkey|
                #[trigger] r@.dom().contains(q) <==> ((exists|k: int|
                    0 <= k < j && loaded.key_seq()[k] == q) && changed@[q] != loaded@[q]),
            forall|q: Pubkey| #[trigger] r@.dom().contains(q) ==> r@[q] == changed@[q],
        decreases n - j,
    {
        let pk = loaded.key_at(j);
        let old_a = loaded.value_at(j);
        let new_a = match changed.get(&pk) {
            Some(a) => a,
            None => {
                proof {
                    assert(false);
                }
                old_a
            },
        };
        if !account_eq(new_a, old_a) {
            r.insert(pk, new_a.duplicate());
        }
        proof {
            assert(loaded.key_seq()[j as int] == pk);
            assert forall|q: Pubkey| #[trigger] r@.dom().contains(q) <==> ((exists|k: int|
                0 <= k < j + 1 && loaded.key_seq()[k] == q) && changed@[q] != loaded@[q]) by {
                if q == pk {
                } else {
                    if exists|k: int| 0 <= k < j + 1 && loaded.key_seq()[k] == q {
                        let k = choose|k: int| 0 <= k < j + 1 && loaded.key_seq()[k] == q;
                        assert(k < j);
                    }
                }
            }
        }
        j = j + 1;
    }
    proof {
        assert forall|q: Pubkey| #[trigger] r@.dom().contains(q) <==> (loaded@.dom().contains(q)
            && changed@[q] != loaded@[q]) by {
            if loaded@.dom().contains(q) {
                let k = choose|k: int|
                    0 <= k < loaded.key_seq().len() && loaded.key_seq()[k] == q;
            }
        }
    }
    r
}

/// What a finished transaction hands to the ledger: nothing at all unless
/// the caller asked to commit. Simulation is a no-op on storage.
pub fn commit_set(edited: AccountMap, commit_changes: bool) -> (r: AccountMap)
    ensures
        !commit_changes ==> r@ == Map::<Pubkey, AccountView>::empty(),
        commit_changes ==> r@ == edited@,
{
    if commit_changes {
        edited
    } else {
        AccountMap::new()
    }
}


/// The abort rule at the instruction boundary: a zero code continues the
/// transaction; the first non-zero code aborts it with the instruction's
/// index, the code, and the logs gathered so far, before anything is saved.
pub fn check_instruction_result(index: usize, return_code: u64, logs_so_far: Vec<String>) -> (r:
    Result<Vec<String>, BokkenError>)
    ensures
        (r is Ok) <==> return_code == 0,
        r matches Ok(logs) ==> logs == logs_so_far,
        return_code != 0 ==> r == (Result::<Vec<String>, BokkenError>::Err(
            BokkenError::InstructionExecError(index, return_code, logs_so_far),
        )),
{
    if return_code != 0 {
        return Err(BokkenError::InstructionExecError(index, return_code, logs_so_far));
    }
    Ok(logs_so_far)
}


/// One instruction as it sits in a transaction message: indices into the
/// message's account keys, plus the opaque data.
pub struct CompiledInstruction {
    pub program_id_index: u8,
    pub accounts: Vec<u8>,
    pub data: Vec<u8>,
}

/// Whether the account at position `i` of a sanitized message signs it:
/// the first `num_required_signatures` keys are the signers.
pub open spec fn spec_index_is_signer(i: int, num_required_signatures: u8) -> bool {
    i < num_required_signatures
}

/// Whether the account at position `i` may be written: signers outside the
/// read-only signer tail, and unsigned keys outside the read-only unsigned
/// tail.
pub open spec fn spec_index_is_writable(
    i: int,
    n_keys: int,
    num_required_signatures: u8,
    num_readonly_signed: u8,
    num_readonly_unsigned: u8,
) -> bool {
    (i < num_required_signatures - num_readonly_signed) || (num_required_signatures <= i && i
        < n_keys - num_readonly_unsigned)
}

/// Whether every key index a compiled instruction holds is in range.
pub open spec fn spec_indices_in_range(ix: CompiledInstruction, n_keys: int) -> bool {
    &&& (ix.program_id_index as int) < n_keys
    &&& forall|y: int| 0 <= y < ix.accounts@.len() ==> (#[trigger] ix.accounts@[y] as int) < n_keys
}

/// Lower a sanitized transaction message to resolved instructions: each key
/// index becomes its pubkey, with the signer and writable flags the message
/// header assigns to its position. Fails, as a sanitize error, exactly when
/// some index is out of range.
pub fn lower_instructions(
    account_keys: &Vec<Pubkey>,
    num_required_signatures: u8,
    num_readonly_signed: u8,
    num_readonly_unsigned: u8,
    instructions: Vec<CompiledInstruction>,
) -> (r: Result<Vec<BokkenLedgerInstruction>, BokkenError>)
    ensures
        (r is Ok) <==> (forall|x: int|
            0 <= x < instructions@.len() ==> spec_indices_in_range(
                #[trigger] instructions@[x],
                account_keys@.len() as int,
            )),
        (r is Err) ==> r == (Result::<Vec<BokkenLedgerInstruction>, BokkenError>::Err(
            BokkenError::SanitizeError,
        )),
        r matches Ok(v) ==> v@.len() == instructions@.len() && forall|x: int|
            0 <= x < v@.len() ==> {
                let lowered = #[trigger] v@[x];
                let src = instructions@[x];
                &&& lowered.program_id == account_keys@[src.program_id_index as int]
                &&& lowered.data@ == src.data@
                &&& lowered.account_metas@.len() == src.accounts@.len()
                &&& forall|y: int|
                    0 <= y < src.accounts@.len() ==> {
                        let meta = #[trigger] lowered.account_metas@[y];
                        let i = src.accounts@[y] as int;
                        &&& meta.pubkey == account_keys@[i]
                        &&& meta.is_signer == spec_index_is_signer(i, num_required_signatures)
                        &&& meta.is_writable == spec_index_is_writable(
                            i,
                            account_keys@.len() as int,
                            num_required_signatures,
                            num_readonly_signed,
                            num_readonly_unsigned,
                        )
                    }
            },
{
    let n_keys = account_keys.len();
    let mut v: Vec<BokkenLedgerInstruction> = Vec::new();
    let mut x: usize = 0;
    let mut rest = instructions;
    while x < rest.len()
        invariant
            rest@ == instructions@,
            n_keys == account_keys@.len(),
            x <= rest@.len(),
            v@.len() == x as int,
            forall|k: int|
                0 <= k < x ==> spec_indices_in_range(
                    #[trigger] rest@[k],
                    account_keys@.len() as int,
                ),
            forall|k: int|
                0 <= k < x ==> {
                    let lowered = #[trigger] v@[k];
                    let src = rest@[k];
                    &&& lowered.program_id == account_keys@[src.program_id_index as int]
                    &&& lowered.data@ == src.data@
                    &&& lowered.account_metas@.len() == src.accounts@.len()
                    &&& forall|y: int|
                        0 <= y < src.accounts@.len() ==> {
                            let meta = #[trigger] lowered.account_metas@[y];
                            let i = src.accounts@[y] as int;
                            &&& meta.pubkey == account_keys@[i]
                            &&& meta.is_signer == spec_index_is_signer(
                                i,
                                num_required_signatures,
                            )
                            &&& meta.is_writable == spec_index_is_writable(
                                i,
                                account_keys@.len() as int,
                                num_required_signatures,
                                num_readonly_signed,
                                num_readonly_unsigned,
                            )
                        }
                },
        decreases rest@.len() - x,
    {
        let src = &rest[x];
        if src.program_id_index as usize >= n_keys {
            proof {
                assert(!spec_indices_in_range(instructions@[x as int], account_keys@.len() as int));
            }
            return Err(BokkenError::SanitizeError);
        }
        let program_id = account_keys[src.program_id_index as usize];
        let mut account_metas: Vec<BorshAccountMeta> = Vec::new();
        let mut y: usize = 0;
        while y < src.accounts.len()
            invariant
                rest@ == instructions@,
                n_keys == account_keys@.len(),
                x < rest@.len(),
                src == &rest@[x as int],
                y <= src.accounts@.len(),
                account_metas@.len() == y as int,
                forall|k: int|
                    0 <= k < y ==> (#[trigger] src.accounts@[k] as int) < account_keys@.len(),
                forall|k: int|
                    0 <= k < y ==> {
                        let meta = #[trigger] account_metas@[k];
                        let i = src.accounts@[k] as int;
                        &&& meta.pubkey == account_keys@[i]
                        &&& meta.is_signer == spec_index_is_signer(i, num_required_signatures)
                        &&& meta.is_writable == spec_index_is_writable(
                            i,
                            account_keys@.len() as int,
                            num_required_signatures,
                            num_readonly_signed,
                            num_readonly_unsigned,
                        )
                    },
            decreases src.accounts@.len() - y,
        {
            let i = src.accounts[y];
            if i as usize >= n_keys {
                proof {
                    assert(src.accounts@[y as int] == i);
                    assert(!spec_indices_in_range(
                        instructions@[x as int],
                        account_keys@.len() as int,
                    ));
                }
                return Err(BokkenError::SanitizeError);
            }
            let is_signer = (i as usize) < num_required_signatures as usize;
            let writable_signer = (num_required_signatures as usize) >= (num_readonly_signed
                as usize) && (i as usize) < (num_required_signatures as usize) - (
            num_readonly_signed as usize);
            let writable_unsigned = (i as usize) >= num_required_signatures as usize && n_keys
                >= num_readonly_unsigned as usize && (i as usize) < n_keys - (
            num_readonly_unsigned as usize);
            account_metas.push(
                BorshAccountMeta {
                    pubkey: account_keys[i as usize],
                    is_signer,
                    is_writable: writable_signer || writable_unsigned,
                },
            );
            y = y + 1;
        }
        let data = crate::bytesutil::read_bytes(&src.data, 0, src.data.len());
        proof {
            assert(data@ =~= rest@[x as int].data@);
        }
        v.push(BokkenLedgerInstruction { program_id, account_metas, data });
        x = x + 1;
    }
    Ok(v)
}

} // verus!
