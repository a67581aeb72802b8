//! End-to-end walks of the core on concrete values: registration, a
//! hello-world invocation, a committed increment, fee exhaustion, and a
//! panicking child, each driven through the same functions the two
//! processes run.

use bokken::account::{AccountMap, BokkenAccountData, BorshAccountMeta, Pubkey};
use bokken::caller::{
    handle_exec_status, has_program_id, route_message, CallStep, NonceMap,
    ProgramCallerExecStatus, ProgramRegistry,
};
use bokken::error::BokkenError;
use bokken::executor::{
    apply_fee, assemble_instruction_accounts, collect_unique_signers, commit_set, diff_accounts,
    merge_returned_accounts, BokkenLedgerInstruction,
};
use bokken::messages::BokkenValidatorMessage;
use bokken::syscalls::{completion_messages, make_log_message, runtime_step, RuntimeAction};
use bokken::test_program::{process_instruction, TestProgramInstruction, TestProgramOutcome};

fn pk(n: u64) -> Pubkey {
    Pubkey { w0: n, w1: 0, w2: 0, w3: 0 }
}

fn acct(lamports: u64, data: Vec<u8>) -> BokkenAccountData {
    BokkenAccountData {
        lamports,
        data,
        owner: pk(0),
        executable: false,
        rent_epoch: 0,
    }
}

#[test]
fn registration_scenario() {
    // a child connects and sends its program id; a second connection with
    // the same id replaces the first
    let mut registry = ProgramRegistry::new();
    let program = pk(101);
    registry.register(program, 0);
    assert!(has_program_id(&registry, &program));
    registry.register(program, 1);
    assert_eq!(registry.channel_of(&program), Some(1));
}

#[test]
fn hello_world_scenario() {
    // instruction data = [0] to a child that merely logs "hi" and returns 0
    let program = pk(50);
    let account = pk(1);
    let mut datas = AccountMap::new();
    datas.insert(account, acct(1, vec![]));
    let invoke = BokkenValidatorMessage::Invoke {
        nonce: 1,
        program_id: program,
        instruction: vec![0],
        account_metas: vec![BorshAccountMeta {
            pubkey: account,
            is_signer: false,
            is_writable: false,
        }],
        account_datas: datas,
        call_depth: 1,
    };
    let ctx = match runtime_step(invoke) {
        RuntimeAction::StartExecution { ctx } => ctx,
        _ => panic!("expected an execution start"),
    };
    // the child's program dispatches the hello-world instruction and logs
    match process_instruction(&vec![0], &account, &vec![]).unwrap() {
        TestProgramOutcome::Logged => {},
        _ => panic!("expected the greeting outcome"),
    }
    let log = make_log_message(1, "hi");
    let snapshot = ctx.get_account_datas();
    let done = completion_messages(1, Ok(0), snapshot);
    // the validator routes the log before the completion
    let mut logs: NonceMap<Vec<String>> = NonceMap::new();
    let mut results: NonceMap<ProgramCallerExecStatus> = NonceMap::new();
    logs.set(1, Vec::new());
    route_message(log, &mut logs, &mut results);
    for m in done {
        route_message(m, &mut logs, &mut results);
    }
    let buffered = logs.take(1).unwrap();
    let status = results.take(1).unwrap();
    let step = handle_exec_status(status, &program, 1, 1, buffered).unwrap();
    match step {
        CallStep::Done { return_code, logs, account_datas } => {
            assert_eq!(return_code, 0);
            assert!(logs.iter().any(|l| l.contains("hi")));
            // no account changes
            assert_eq!(account_datas.get(&account).unwrap().lamports, 1);
            assert_eq!(account_datas.get(&account).unwrap().data.len(), 0);
        },
        _ => panic!("expected completion"),
    }
}

#[test]
fn increment_transaction_scenario() {
    // account A with 16 zero bytes; the instruction increments by 5;
    // the post-state is 5 and 10 little-endian and A is committed
    let program = pk(50);
    let a = pk(1);
    let payer = pk(2);
    let clock = pk(100);
    let rent = pk(101);
    let mut loaded = AccountMap::new();
    loaded.insert(payer, acct(10_000, vec![]));
    loaded.insert(clock, acct(1, vec![]));
    loaded.insert(rent, acct(1, vec![]));
    loaded.insert(a, acct(1, vec![0; 16]));
    let data = TestProgramInstruction::IncrementNumber { amount: 5 }.pack();
    let ix = BokkenLedgerInstruction {
        program_id: program,
        account_metas: vec![BorshAccountMeta { pubkey: a, is_signer: false, is_writable: true }],
        data: data.clone(),
    };
    let signers = collect_unique_signers(&payer, &vec![]);
    assert_eq!(signers.len(), 1);
    let mut state = loaded.duplicate();
    apply_fee(&mut state, &payer, signers.len()).unwrap();
    let sub = assemble_instruction_accounts(&mut state, &ix.account_metas, &clock, &rent).unwrap();
    // the child executes the instruction on the blob it would be handed
    let invoke = BokkenValidatorMessage::Invoke {
        nonce: 3,
        program_id: program,
        instruction: data.clone(),
        account_metas: ix.account_metas.clone(),
        account_datas: sub,
        call_depth: 1,
    };
    let ctx = match runtime_step(invoke) {
        RuntimeAction::StartExecution { ctx } => ctx,
        _ => panic!("expected an execution start"),
    };
    let mut blob = ctx.blob;
    let account_data = blob.get_account_data(&a).unwrap();
    let out = match process_instruction(&data, &a, &account_data.data).unwrap() {
        TestProgramOutcome::Updated { new_data } => new_data,
        _ => panic!("expected an update"),
    };
    let mut updated = account_data;
    updated.data = out;
    blob.set_account_data(&a, &updated).unwrap();
    let returned = blob.get_account_datas();
    // back on the validator: merge, diff and commit
    merge_returned_accounts(&mut state, returned);
    let edited = diff_accounts(&loaded, &state);
    let to_save = commit_set(edited, true);
    let committed = to_save.get(&a).expect("A is committed");
    assert_eq!(&committed.data[0..8], &5u64.to_le_bytes());
    assert_eq!(&committed.data[8..16], &10u64.to_le_bytes());
    // the fee payer's deduction is committed too
    assert_eq!(to_save.get(&payer).unwrap().lamports, 10_000 - 5000);
}

#[test]
fn fee_exhaustion_scenario() {
    // fee payer balance 4999, one signer: rejected, nothing runs
    let payer = pk(2);
    let mut loaded = AccountMap::new();
    loaded.insert(payer, acct(4999, vec![]));
    let mut state = loaded.duplicate();
    let r = apply_fee(&mut state, &payer, 1);
    assert_eq!(r, Err(BokkenError::InsufficientFundsForFee));
    // the ledger stays bit-identical: nothing differs, nothing is saved
    let edited = diff_accounts(&loaded, &state);
    assert_eq!(edited.len(), 0);
    assert_eq!(commit_set(edited, true).len(), 0);
}

#[test]
fn panic_scenario() {
    // the child's entrypoint panics with "bad"
    let program = pk(50);
    let msgs = completion_messages(6, Err("bad".to_string()), AccountMap::new());
    let mut logs: NonceMap<Vec<String>> = NonceMap::new();
    let mut results: NonceMap<ProgramCallerExecStatus> = NonceMap::new();
    logs.set(6, Vec::new());
    for m in msgs {
        route_message(m, &mut logs, &mut results);
    }
    let buffered = logs.take(6).unwrap();
    assert_eq!(buffered, vec!["Program panicked: bad".to_string()]);
    let status = results.take(6).unwrap();
    let step = handle_exec_status(status, &program, 1, 6, buffered).unwrap();
    match step {
        CallStep::Done { return_code, logs, .. } => {
            assert_eq!(return_code, 1 << 32);
            assert!(logs.iter().any(|l| l.contains("Program panicked: bad")));
            assert!(logs[logs.len() - 1].contains("returned:"));
        },
        _ => panic!("expected completion"),
    }
}

#[test]
fn cpi_recursion_scenario() {
    // a depth-3 recursion: each nested request is dispatched one level
    // deeper, and the validator log carries one invoke/success pair per
    // completed invocation, innermost nested inside its caller's pair
    let program = pk(50);
    let mut depth = 1u8;
    for _ in 0..3 {
        let status = ProgramCallerExecStatus::CPI {
            program_id: program,
            instruction: vec![],
            account_metas: vec![],
            account_datas: AccountMap::new(),
            call_depth: depth,
        };
        match handle_exec_status(status, &program, depth, depth as u64, vec![]).unwrap() {
            CallStep::Cpi { call_depth, .. } => depth = call_depth,
            _ => panic!("expected a nested dispatch"),
        }
    }
    assert_eq!(depth, 4);
    // completions unwind: each level wraps the sub-logs in its own bookends
    let mut logs: Vec<String> = Vec::new();
    for level in (1..=4u8).rev() {
        let status = ProgramCallerExecStatus::Executed {
            return_code: 0,
            account_datas: AccountMap::new(),
        };
        match handle_exec_status(status, &program, level, level as u64, logs).unwrap() {
            CallStep::Done { logs: wrapped, .. } => logs = wrapped,
            _ => panic!("expected completion"),
        }
    }
    let invokes = logs.iter().filter(|l| l.contains(" invoke [")).count();
    let successes = logs.iter().filter(|l| l.contains(" success")).count();
    assert_eq!(invokes, 4);
    assert_eq!(successes, 4);
    assert!(logs[0].ends_with(" invoke [1]"));
    assert!(logs[3].ends_with(" invoke [4]"));
    assert!(logs[4].ends_with(" success"));
    assert!(logs[7].ends_with(" success"));
}
