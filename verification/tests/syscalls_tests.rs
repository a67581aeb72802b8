use bokken::account::{AccountMap, BokkenAccountData, BorshAccountMeta, ProgramError, Pubkey};
use bokken::messages::{parse_handshake, BokkenRuntimeMessage, BokkenValidatorMessage};
use bokken::syscalls::{
    completion_messages, cpi_validate, make_compute_units_message, make_log_data_message,
    make_log_message, runtime_step, BokkenSolanaContext, ContextStack, CpiError, ReturnDataSlot,
    RuntimeAction, UNSUPPORTED_SYSVAR,
};

fn pk(n: u64) -> Pubkey {
    Pubkey { w0: n, w1: 0, w2: 0, w3: 0 }
}

fn acct(lamports: u64, data: Vec<u8>) -> BokkenAccountData {
    BokkenAccountData {
        lamports,
        data,
        owner: pk(0),
        executable: false,
        rent_epoch: 0,
    }
}

fn ctx_with(metas: Vec<BorshAccountMeta>, datas: AccountMap, nonce: u64, height: u8) -> BokkenSolanaContext {
    BokkenSolanaContext::new(pk(50), vec![0], metas, datas, nonce, height)
}

#[test]
fn stack_heights_grow_with_recursion() {
    // four nested invocations observe heights 1, 2, 3, 4
    let mut stack = ContextStack::new();
    let mut seen = Vec::new();
    for depth in 1..=4u8 {
        let mut datas = AccountMap::new();
        datas.insert(pk(1), acct(1, vec![]));
        let metas = vec![BorshAccountMeta { pubkey: pk(1), is_signer: false, is_writable: true }];
        stack.push(ctx_with(metas, datas, depth as u64, depth));
        seen.push(stack.stack_height());
    }
    assert_eq!(seen, vec![1, 2, 3, 4]);
    for _ in 0..4 {
        stack.pop();
    }
    assert!(stack.pop().is_none());
}

#[test]
fn return_data_cleared_then_set_by_current_program() {
    let mut slot = ReturnDataSlot::new();
    assert!(slot.get().is_none());
    slot.set(pk(3), vec![1, 2]);
    let (who, data) = slot.get().unwrap();
    assert_eq!(who, pk(3));
    assert_eq!(data, vec![1, 2]);
    slot.clear();
    assert!(slot.get().is_none());
}

#[test]
fn permission_escalation_rejected_before_reinvocation() {
    // the frame holds the account read-only; the CPI asks for writability
    let a = pk(1);
    let mut datas = AccountMap::new();
    datas.insert(a, acct(1, vec![]));
    let metas = vec![BorshAccountMeta { pubkey: a, is_signer: false, is_writable: false }];
    let ctx = ctx_with(metas, datas, 1, 1);
    let want = vec![BorshAccountMeta { pubkey: a, is_signer: false, is_writable: true }];
    let keys = vec![a];
    let r = cpi_validate(&ctx.blob, &want, &keys, &vec![]);
    assert_eq!(r.err(), Some(CpiError::PermissionEscalation));
    assert_eq!(
        CpiError::PermissionEscalation.to_program_error(),
        ProgramError::PermissionEscalation
    );
    assert_eq!(ProgramError::PermissionEscalation.to_code(), 25 << 32);
}

#[test]
fn signer_escalation_rejected_unless_just_signed() {
    let a = pk(1);
    let mut datas = AccountMap::new();
    datas.insert(a, acct(1, vec![]));
    let metas = vec![BorshAccountMeta { pubkey: a, is_signer: false, is_writable: true }];
    let ctx = ctx_with(metas, datas, 1, 1);
    let want = vec![BorshAccountMeta { pubkey: a, is_signer: true, is_writable: true }];
    let keys = vec![a];
    assert_eq!(
        cpi_validate(&ctx.blob, &want, &keys, &vec![]).err(),
        Some(CpiError::MissingSignature)
    );
    // the same request passes when a seed just signed for the account
    let just_signed = vec![a];
    assert!(cpi_validate(&ctx.blob, &want, &keys, &just_signed).is_ok());
}

#[test]
fn cpi_validate_snapshots_the_accounts() {
    let a = pk(1);
    let mut datas = AccountMap::new();
    datas.insert(a, acct(44, vec![5]));
    let metas = vec![BorshAccountMeta { pubkey: a, is_signer: true, is_writable: true }];
    let ctx = ctx_with(metas, datas, 1, 1);
    let want = vec![BorshAccountMeta { pubkey: a, is_signer: false, is_writable: false }];
    let keys = vec![a];
    let snap = cpi_validate(&ctx.blob, &want, &keys, &vec![]).unwrap();
    assert_eq!(snap.len(), 1);
    assert_eq!(snap.get(&a).unwrap().lamports, 44);
}

#[test]
fn cpi_validate_key_mismatch() {
    let a = pk(1);
    let mut datas = AccountMap::new();
    datas.insert(a, acct(1, vec![]));
    let metas = vec![BorshAccountMeta { pubkey: a, is_signer: false, is_writable: true }];
    let ctx = ctx_with(metas, datas, 1, 1);
    let want = vec![BorshAccountMeta { pubkey: a, is_signer: false, is_writable: false }];
    let wrong_keys = vec![pk(9)];
    assert_eq!(
        cpi_validate(&ctx.blob, &want, &wrong_keys, &vec![]).err(),
        Some(CpiError::AccountMismatch)
    );
}

#[test]
fn cpi_writeback_updates_the_blob() {
    let a = pk(1);
    let mut datas = AccountMap::new();
    datas.insert(a, acct(1, vec![0; 8]));
    let metas = vec![BorshAccountMeta { pubkey: a, is_signer: false, is_writable: true }];
    let mut stack = ContextStack::new();
    stack.push(ctx_with(metas, datas, 1, 1));
    let mut updated = AccountMap::new();
    updated.insert(a, acct(33, vec![9; 8]));
    assert!(stack.apply_cpi_results_top(&updated).is_ok());
    let got = stack.top().get_account_data(&a).unwrap();
    assert_eq!(got.lamports, 33);
    assert_eq!(got.data, vec![9; 8]);
}

#[test]
fn panic_reports_log_then_synthesized_failure() {
    let msgs = completion_messages(4, Err("bad".to_string()), AccountMap::new());
    assert_eq!(msgs.len(), 2);
    match &msgs[0] {
        BokkenRuntimeMessage::Log { nonce, message } => {
            assert_eq!(*nonce, 4);
            assert_eq!(message, "Program panicked: bad");
        },
        _ => panic!("expected the panic log first"),
    }
    match &msgs[1] {
        BokkenRuntimeMessage::Executed { nonce, return_code, .. } => {
            assert_eq!(*nonce, 4);
            assert_eq!(*return_code, 1 << 32); // Custom(0)
        },
        _ => panic!("expected the synthesized completion"),
    }
}

#[test]
fn success_reports_one_executed_frame() {
    let msgs = completion_messages(9, Ok(0), AccountMap::new());
    assert_eq!(msgs.len(), 1);
    match &msgs[0] {
        BokkenRuntimeMessage::Executed { nonce, return_code, .. } => {
            assert_eq!(*nonce, 9);
            assert_eq!(*return_code, 0);
        },
        _ => panic!("expected the completion"),
    }
}

#[test]
fn log_message_has_program_logged_prefix() {
    match make_log_message(3, "hi") {
        BokkenRuntimeMessage::Log { nonce, message } => {
            assert_eq!(nonce, 3);
            assert_eq!(message, "Program logged: hi");
        },
        _ => panic!("expected a log frame"),
    }
}

#[test]
fn runtime_step_builds_context_or_rejects() {
    let a = pk(1);
    let mut datas = AccountMap::new();
    datas.insert(a, acct(5, vec![1]));
    let metas = vec![BorshAccountMeta { pubkey: a, is_signer: false, is_writable: true }];
    let msg = BokkenValidatorMessage::Invoke {
        nonce: 7,
        program_id: pk(50),
        instruction: vec![0],
        account_metas: metas,
        account_datas: datas,
        call_depth: 1,
    };
    match runtime_step(msg) {
        RuntimeAction::StartExecution { ctx } => {
            assert_eq!(ctx.nonce(), 7);
            assert_eq!(ctx.cpi_height(), 1);
            assert_eq!(ctx.get_account_data(&a).unwrap().lamports, 5);
        },
        _ => panic!("expected an execution start"),
    }
    // a meta without a backing account is malformed
    let msg2 = BokkenValidatorMessage::Invoke {
        nonce: 8,
        program_id: pk(50),
        instruction: vec![0],
        account_metas: vec![BorshAccountMeta {
            pubkey: pk(9),
            is_signer: false,
            is_writable: false,
        }],
        account_datas: AccountMap::new(),
        call_depth: 1,
    };
    assert!(matches!(runtime_step(msg2), RuntimeAction::Malformed));
    // a result frame is routed through
    let msg3 = BokkenValidatorMessage::CrossProgramInvokeResult {
        nonce: 12,
        return_code: 0,
        account_datas: AccountMap::new(),
    };
    assert!(matches!(
        runtime_step(msg3),
        RuntimeAction::CpiResult { nonce: 12, .. }
    ));
}

#[test]
fn handshake_is_the_raw_pubkey() {
    let p = pk(77);
    let mut payload = Vec::new();
    payload.extend_from_slice(&p.w0.to_le_bytes());
    payload.extend_from_slice(&p.w1.to_le_bytes());
    payload.extend_from_slice(&p.w2.to_le_bytes());
    payload.extend_from_slice(&p.w3.to_le_bytes());
    assert_eq!(parse_handshake(&payload), Some(p));
    assert_eq!(parse_handshake(&vec![1, 2, 3]), None);
}

#[test]
fn unsupported_sysvar_code() {
    assert_eq!(UNSUPPORTED_SYSVAR, 17u64 << 32);
}

#[test]
fn data_and_compute_unit_log_lines() {
    match make_log_data_message(2, &vec![b"hi".to_vec(), b"yo".to_vec()]) {
        BokkenRuntimeMessage::Log { nonce, message } => {
            assert_eq!(nonce, 2);
            assert_eq!(message, "Program logged: data: aGk= eW8=");
        },
        _ => panic!("expected a log frame"),
    }
    match make_log_data_message(2, &vec![]) {
        BokkenRuntimeMessage::Log { message, .. } => {
            assert_eq!(message, "Program logged: data: ");
        },
        _ => panic!("expected a log frame"),
    }
    match make_compute_units_message(3) {
        BokkenRuntimeMessage::Log { nonce, message } => {
            assert_eq!(nonce, 3);
            assert_eq!(
                message,
                "Program logged: WARNING: sol_log_compute_units() not available"
            );
        },
        _ => panic!("expected a log frame"),
    }
}
