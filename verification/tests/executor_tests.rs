use bokken::account::{AccountMap, BokkenAccountData, BorshAccountMeta, Pubkey};
use bokken::error::BokkenError;
use bokken::executor::{
    apply_fee, assemble_instruction_accounts, check_instruction_result, collect_unique_signers,
    commit_set, diff_accounts, lower_instructions, merge_returned_accounts,
    BokkenLedgerInstruction, CompiledInstruction,
};
use bokken::LAMPORTS_PER_SIGNATURE;

fn pk(n: u64) -> Pubkey {
    Pubkey { w0: n, w1: 0, w2: 0, w3: 0 }
}

fn plain(lamports: u64) -> BokkenAccountData {
    BokkenAccountData {
        lamports,
        data: Vec::new(),
        owner: pk(0),
        executable: false,
        rent_epoch: 0,
    }
}

fn ix(program: u64, metas: Vec<BorshAccountMeta>) -> BokkenLedgerInstruction {
    BokkenLedgerInstruction { program_id: pk(program), account_metas: metas, data: vec![] }
}

#[test]
fn unique_signers_dedup() {
    let payer = pk(1);
    let ixs = vec![
        ix(
            9,
            vec![
                BorshAccountMeta { pubkey: pk(2), is_signer: true, is_writable: false },
                BorshAccountMeta { pubkey: pk(1), is_signer: true, is_writable: true },
                BorshAccountMeta { pubkey: pk(3), is_signer: false, is_writable: true },
            ],
        ),
        ix(9, vec![BorshAccountMeta { pubkey: pk(2), is_signer: true, is_writable: false }]),
    ];
    let signers = collect_unique_signers(&payer, &ixs);
    assert_eq!(signers.len(), 2); // payer and pk(2); pk(3) never signs
    assert!(signers.contains(&pk(1)));
    assert!(signers.contains(&pk(2)));
}

#[test]
fn fee_is_5000_per_unique_signer() {
    let payer = pk(1);
    let mut accounts = AccountMap::new();
    accounts.insert(payer, plain(100_000));
    accounts.insert(pk(2), plain(7));
    assert!(apply_fee(&mut accounts, &payer, 3).is_ok());
    assert_eq!(
        accounts.get(&payer).unwrap().lamports,
        100_000 - 3 * LAMPORTS_PER_SIGNATURE
    );
    // untouched bystander
    assert_eq!(accounts.get(&pk(2)).unwrap().lamports, 7);
}

#[test]
fn fee_exhaustion_rejects_before_anything_runs() {
    let payer = pk(1);
    let mut accounts = AccountMap::new();
    accounts.insert(payer, plain(4999));
    let r = apply_fee(&mut accounts, &payer, 1);
    assert_eq!(r, Err(BokkenError::InsufficientFundsForFee));
    // the ledger-visible state is untouched
    assert_eq!(accounts.get(&payer).unwrap().lamports, 4999);
}

#[test]
fn fee_exactly_affordable() {
    let payer = pk(1);
    let mut accounts = AccountMap::new();
    accounts.insert(payer, plain(5000));
    assert!(apply_fee(&mut accounts, &payer, 1).is_ok());
    assert_eq!(accounts.get(&payer).unwrap().lamports, 0);
}

#[test]
fn assemble_includes_sysvars_and_metas() {
    let clock = pk(100);
    let rent = pk(101);
    let a = pk(1);
    let mut state = AccountMap::new();
    state.insert(clock, plain(1));
    state.insert(rent, plain(2));
    state.insert(a, plain(30));
    let metas = vec![BorshAccountMeta { pubkey: a, is_signer: false, is_writable: true }];
    let sub = assemble_instruction_accounts(&mut state, &metas, &clock, &rent).unwrap();
    assert_eq!(sub.len(), 3);
    assert_eq!(sub.get(&a).unwrap().lamports, 30);
    // the meta account moved out of the working state; the sysvars stayed
    assert!(state.get(&a).is_none());
    assert!(state.get(&clock).is_some());
}

#[test]
fn assemble_missing_account() {
    let clock = pk(100);
    let rent = pk(101);
    let mut state = AccountMap::new();
    state.insert(clock, plain(1));
    state.insert(rent, plain(2));
    let metas = vec![BorshAccountMeta { pubkey: pk(9), is_signer: false, is_writable: true }];
    match assemble_instruction_accounts(&mut state, &metas, &clock, &rent) {
        Err(e) => assert_eq!(e, BokkenError::AccountNotFound),
        Ok(_) => panic!("expected a missing-account error"),
    }
}

#[test]
fn merge_splices_returned_accounts() {
    let a = pk(1);
    let b = pk(2);
    let mut state = AccountMap::new();
    state.insert(a, plain(1));
    let mut returned = AccountMap::new();
    returned.insert(a, plain(10));
    returned.insert(b, plain(20));
    merge_returned_accounts(&mut state, returned);
    assert_eq!(state.get(&a).unwrap().lamports, 10);
    assert_eq!(state.get(&b).unwrap().lamports, 20);
}

#[test]
fn diff_reports_only_changes() {
    let a = pk(1);
    let b = pk(2);
    let mut loaded = AccountMap::new();
    loaded.insert(a, plain(1));
    loaded.insert(b, plain(2));
    let mut changed = AccountMap::new();
    changed.insert(a, plain(1));
    changed.insert(b, plain(99));
    let edited = diff_accounts(&loaded, &changed);
    assert_eq!(edited.len(), 1);
    assert_eq!(edited.get(&b).unwrap().lamports, 99);
    assert!(edited.get(&a).is_none());
}

#[test]
fn non_commit_is_a_no_op_on_storage() {
    let a = pk(1);
    let mut edited = AccountMap::new();
    edited.insert(a, plain(123));
    // simulation: nothing reaches the ledger
    let to_save = commit_set(edited, false);
    assert_eq!(to_save.len(), 0);
    // a committed transaction hands the edits through unchanged
    let mut edited2 = AccountMap::new();
    edited2.insert(a, plain(123));
    let to_save2 = commit_set(edited2, true);
    assert_eq!(to_save2.len(), 1);
    assert_eq!(to_save2.get(&a).unwrap().lamports, 123);
}

#[test]
fn first_nonzero_code_aborts_with_index_and_logs() {
    let logs = vec!["one".to_string(), "two".to_string()];
    assert_eq!(check_instruction_result(0, 0, logs.clone()), Ok(logs.clone()));
    match check_instruction_result(2, 1 << 32, logs.clone()) {
        Err(BokkenError::InstructionExecError(index, code, carried)) => {
            assert_eq!(index, 2);
            assert_eq!(code, 1 << 32);
            assert_eq!(carried, logs);
        },
        _ => panic!("expected the abort"),
    }
}

#[test]
fn lowering_resolves_keys_and_header_flags() {
    // four keys: writable signer, read-only signer, writable, read-only
    let keys = vec![pk(10), pk(11), pk(12), pk(13)];
    let ixs = vec![CompiledInstruction {
        program_id_index: 3,
        accounts: vec![0, 1, 2, 3],
        data: vec![7, 8],
    }];
    let v = lower_instructions(&keys, 2, 1, 1, ixs).unwrap();
    assert_eq!(v.len(), 1);
    assert_eq!(v[0].program_id, pk(13));
    assert_eq!(v[0].data, vec![7, 8]);
    let m = &v[0].account_metas;
    assert!(m[0].is_signer && m[0].is_writable);
    assert!(m[1].is_signer && !m[1].is_writable);
    assert!(!m[2].is_signer && m[2].is_writable);
    assert!(!m[3].is_signer && !m[3].is_writable);
    // an out-of-range index is a sanitize failure
    let bad = vec![CompiledInstruction { program_id_index: 9, accounts: vec![], data: vec![] }];
    assert!(matches!(
        lower_instructions(&keys, 2, 1, 1, bad),
        Err(BokkenError::SanitizeError)
    ));
    let bad2 = vec![CompiledInstruction { program_id_index: 0, accounts: vec![9], data: vec![] }];
    assert!(matches!(
        lower_instructions(&keys, 2, 1, 1, bad2),
        Err(BokkenError::SanitizeError)
    ));
}
