use bokken::account::{AccountMap, BokkenAccountData, BorshAccountMeta, Pubkey};
use bokken::caller::{
    call_native, handle_exec_status, has_program_id, make_cpi_reply, make_invoke_message,
    route_message, CallStep, NonceMap, ProgramCallerExecStatus, ProgramRegistry,
};
use bokken::error::BokkenError;
use bokken::messages::{BokkenRuntimeMessage, BokkenValidatorMessage};
use bokken::system_program::DebugSystemProgram;

fn pk(n: u64) -> Pubkey {
    Pubkey { w0: n, w1: 0, w2: 0, w3: 0 }
}

fn plain(lamports: u64) -> BokkenAccountData {
    BokkenAccountData {
        lamports,
        data: Vec::new(),
        owner: pk(0),
        executable: false,
        rent_epoch: 0,
    }
}

#[test]
fn registration_and_replacement() {
    let mut reg = ProgramRegistry::new();
    let prog = pk(1);
    assert!(!has_program_id(&reg, &prog));
    reg.register(prog, 10);
    assert!(has_program_id(&reg, &prog));
    assert_eq!(reg.channel_of(&prog), Some(10));
    // a second connection with the same id replaces the first
    reg.register(prog, 11);
    assert_eq!(reg.channel_of(&prog), Some(11));
    // the built-in is always runnable
    assert!(has_program_id(&reg, &Pubkey { w0: 0, w1: 0, w2: 0, w3: 0 }));
}

#[test]
fn route_log_before_executed() {
    let mut logs: NonceMap<Vec<String>> = NonceMap::new();
    let mut results: NonceMap<ProgramCallerExecStatus> = NonceMap::new();
    logs.set(5, Vec::new());
    route_message(
        BokkenRuntimeMessage::Log { nonce: 5, message: "hello".to_string() },
        &mut logs,
        &mut results,
    );
    route_message(
        BokkenRuntimeMessage::Executed {
            nonce: 5,
            return_code: 0,
            account_datas: AccountMap::new(),
        },
        &mut logs,
        &mut results,
    );
    let buffered = logs.take(5).unwrap();
    assert_eq!(buffered, vec!["hello".to_string()]);
    match results.take(5) {
        Some(ProgramCallerExecStatus::Executed { return_code, .. }) => assert_eq!(return_code, 0),
        _ => panic!("expected a completion"),
    }
}

#[test]
fn native_call_has_log_bookends() {
    // system-program transfer through the native path
    let from = pk(1);
    let to = pk(2);
    let mut datas = AccountMap::new();
    datas.insert(from, plain(50));
    datas.insert(to, plain(0));
    let metas = vec![
        BorshAccountMeta { pubkey: from, is_signer: true, is_writable: true },
        BorshAccountMeta { pubkey: to, is_signer: false, is_writable: true },
    ];
    let mut instruction = Vec::new();
    instruction.extend_from_slice(&2u32.to_le_bytes());
    instruction.extend_from_slice(&30u64.to_le_bytes());
    let system_id = Pubkey { w0: 0, w1: 0, w2: 0, w3: 0 };
    let mut prog = DebugSystemProgram::new();
    let (code, logs, accounts) = call_native(&mut prog, &system_id, instruction, metas, datas, 1);
    assert_eq!(code, 0);
    assert_eq!(logs[0], "Program 11111111111111111111111111111111 invoke [1]");
    assert_eq!(
        logs[logs.len() - 1],
        "Program 11111111111111111111111111111111 success"
    );
    assert_eq!(accounts.get(&to).unwrap().lamports, 30);
}

#[test]
fn native_call_failure_bookend() {
    let system_id = Pubkey { w0: 0, w1: 0, w2: 0, w3: 0 };
    let mut prog = DebugSystemProgram::new();
    let (code, logs, _) = call_native(
        &mut prog,
        &system_id,
        vec![1, 2],
        vec![],
        AccountMap::new(),
        1,
    );
    assert_eq!(code, 3 << 32); // invalid instruction data
    assert_eq!(logs[0], "Program 11111111111111111111111111111111 invoke [1]");
    assert_eq!(
        logs[logs.len() - 1],
        "Program 11111111111111111111111111111111 returned: 12884901888"
    );
}

#[test]
fn executed_status_closes_with_bookends() {
    let prog = pk(7);
    let status = ProgramCallerExecStatus::Executed {
        return_code: 0,
        account_datas: AccountMap::new(),
    };
    let step = handle_exec_status(status, &prog, 1, 42, vec!["mid".to_string()]).unwrap();
    match step {
        CallStep::Done { return_code, logs, .. } => {
            assert_eq!(return_code, 0);
            assert_eq!(logs.len(), 3);
            assert!(logs[0].starts_with("Program ") && logs[0].ends_with(" invoke [1]"));
            assert_eq!(logs[1], "mid");
            assert!(logs[2].ends_with(" success"));
        },
        _ => panic!("expected completion"),
    }
}

#[test]
fn cpi_is_answered_on_the_same_nonce_one_level_deeper() {
    let parent = pk(7);
    let status = ProgramCallerExecStatus::CPI {
        program_id: pk(8),
        instruction: vec![1],
        account_metas: vec![],
        account_datas: AccountMap::new(),
        call_depth: 2,
    };
    let step = handle_exec_status(status, &parent, 1, 42, vec![]).unwrap();
    match step {
        CallStep::Cpi { nonce, program_id, call_depth, .. } => {
            assert_eq!(nonce, 42);
            assert_eq!(program_id, pk(8));
            assert_eq!(call_depth, 3);
            // the reply goes back on exactly that nonce
            let reply = make_cpi_reply(nonce, 0, AccountMap::new());
            match reply {
                BokkenValidatorMessage::CrossProgramInvokeResult { nonce: n2, .. } => {
                    assert_eq!(n2, 42)
                },
                _ => panic!("expected a result frame"),
            }
        },
        _ => panic!("expected a nested dispatch"),
    }
}

#[test]
fn cpi_depth_ceiling() {
    let status = ProgramCallerExecStatus::CPI {
        program_id: pk(8),
        instruction: vec![],
        account_metas: vec![],
        account_datas: AccountMap::new(),
        call_depth: u8::MAX,
    };
    assert!(matches!(
        handle_exec_status(status, &pk(7), 1, 1, vec![]),
        Err(BokkenError::ShouldNotHappen)
    ));
}

#[test]
fn invoke_message_carries_the_request() {
    let m = make_invoke_message(9, pk(3), vec![1, 2], vec![], AccountMap::new(), 1);
    match m {
        BokkenValidatorMessage::Invoke { nonce, program_id, instruction, call_depth, .. } => {
            assert_eq!(nonce, 9);
            assert_eq!(program_id, pk(3));
            assert_eq!(instruction, vec![1, 2]);
            assert_eq!(call_depth, 1);
        },
        _ => panic!("expected an invoke frame"),
    }
}
