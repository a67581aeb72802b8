use bokken::account::{account_eq, BokkenAccountData, ProgramError, Pubkey};
use bokken::encodings::{
    base64_decode, base64_encode, bs58_decode, bs58_encode, string_from_utf8, string_to_bytes,
    zstd_decode, zstd_encode,
};
use bokken::error::BokkenError;
use bokken::ledger::{
    binary_search_step, calc_min_balance_for_rent_exemption, clock_sysvar_account,
    ghost_program_account, index_to_offset, next_blockhash, pubkey_debug_program_loader,
    pubkey_null, pubkey_sysvar_owner, rent_sysvar_account, truncate_logs, BokkenLedgerInitConfig,
    IndexableFileSearchResult, SearchStep,
};
use bokken::pda::{create_program_address, create_with_seed};
use bokken::rpc::{
    get_account_info_response, get_balance_response, get_latest_blockhash_response,
    get_version_response, RPCBinaryEncodedString, RpcBinaryEncoding, RpcCommitment,
};
use bokken::test_program::{
    process_increment_number, process_recurse_then_increment_number, TestProgramInstruction, TestProgramState,
};
use bokken::textutil::{invoke_log, pubkey_to_string, u64_to_string};

fn pk(n: u64) -> Pubkey {
    Pubkey { w0: n, w1: 0, w2: 0, w3: 0 }
}

#[test]
fn pubkey_bytes_round_trip() {
    let p = Pubkey { w0: 1, w1: 2, w2: 3, w3: u64::MAX };
    let b = p.to_bytes();
    assert_eq!(b.len(), 32);
    assert_eq!(Pubkey::from_bytes(&b), p);
}

#[test]
fn decimal_rendering() {
    assert_eq!(u64_to_string(0), "0");
    assert_eq!(u64_to_string(7), "7");
    assert_eq!(u64_to_string(5000), "5000");
    assert_eq!(u64_to_string(u64::MAX), "18446744073709551615");
}

#[test]
fn base58_of_system_program_id() {
    let zero = Pubkey { w0: 0, w1: 0, w2: 0, w3: 0 };
    assert_eq!(pubkey_to_string(&zero), "11111111111111111111111111111111");
    assert_eq!(
        invoke_log(&zero, 2),
        "Program 11111111111111111111111111111111 invoke [2]"
    );
}

#[test]
fn base64_wrapper_encodes() {
    let s = base64_encode(&b"hello".to_vec());
    assert_eq!(s, "aGVsbG8=");
    assert_eq!(base64_decode(&s), Some(b"hello".to_vec()));
    assert_eq!(base64_decode(&"!!!".to_string()), None);
}

#[test]
fn bs58_wrapper_round_trip() {
    let data = vec![0, 1, 2, 3, 250];
    let s = bs58_encode(&data);
    assert_eq!(bs58_decode(&s), Some(data));
    assert_eq!(bs58_decode(&"0OIl".to_string()), None);
}

#[test]
fn utf8_wrappers_round_trip() {
    let b = string_to_bytes("grüße");
    assert_eq!(string_from_utf8(b.clone()), Some("grüße".to_string()));
    assert_eq!(string_from_utf8(vec![0xff, 0xfe]), None);
}

#[test]
fn rpc_binary_string_encodings() {
    let data = vec![1u8, 2, 3, 4, 5, 6, 7, 8];
    let b64 = RPCBinaryEncodedString::from_bytes(&data, RpcBinaryEncoding::Base64);
    assert_eq!(b64.0, "AQIDBAUGBwg=");
    assert_eq!(RpcBinaryEncoding::Base64.decode_bytes(&b64.0), Ok(data.clone()));
    let b58 = RPCBinaryEncodedString::from_bytes(&data, RpcBinaryEncoding::Base58);
    assert_eq!(RpcBinaryEncoding::Base58.decode_bytes(&b58.0), Ok(data.clone()));
    // the compressed form carries the tag that actually decodes it
    let z = RPCBinaryEncodedString::from_bytes(&data, RpcBinaryEncoding::Base64Compressed);
    assert_eq!(z.1, RpcBinaryEncoding::Base64Compressed);
    assert_eq!(z.1.decode_bytes(&z.0), Ok(data));
    assert_eq!(
        RpcBinaryEncoding::Base58.decode_bytes(&"0OIl".to_string()),
        Err(BokkenError::Base58DecodeError)
    );
    assert_eq!(
        RpcBinaryEncoding::Base64.decode_bytes(&"!!!".to_string()),
        Err(BokkenError::Base64DecodeError)
    );
}

#[test]
fn zstd_wrapper_round_trip() {
    let data = vec![7u8; 4096];
    let packed = zstd_encode(&data).expect("compressor available");
    assert!(packed.len() < data.len());
    assert_eq!(zstd_decode(&packed), Some(data));
}

#[test]
fn rpc_defaults() {
    assert_eq!(RpcCommitment::default(), RpcCommitment::Finalized);
    assert_eq!(RpcBinaryEncoding::default(), RpcBinaryEncoding::Base64);
}

#[test]
fn increment_writes_both_counters() {
    // a 16-byte zeroed account incremented by 5 holds 5 and 10
    let out = process_increment_number(&vec![0; 16], 5).unwrap();
    assert_eq!(&out[0..8], &5u64.to_le_bytes());
    assert_eq!(&out[8..16], &10u64.to_le_bytes());
    assert_eq!(
        process_increment_number(&vec![0; 15], 5),
        Err(ProgramError::InvalidAccountData)
    );
    assert_eq!(
        process_increment_number(&u64::MAX.to_le_bytes().iter().chain([0u8; 8].iter()).cloned().collect(), 1),
        Err(ProgramError::ArithmeticOverflow)
    );
}

#[test]
fn test_instruction_round_trip() {
    for ix in [
        TestProgramInstruction::HelloWorld,
        TestProgramInstruction::IncrementNumber { amount: 5 },
        TestProgramInstruction::RecurseThenIncrementNumber { call_depth: 3, amount: 1 },
    ] {
        assert_eq!(TestProgramInstruction::unpack(&ix.pack()), Ok(ix));
    }
    assert_eq!(
        TestProgramInstruction::unpack(&vec![3]),
        Err(ProgramError::InvalidInstructionData)
    );
}

#[test]
fn recursion_unwinds_to_single_increment() {
    // depth 3 recursion: each step peels one level, the last one increments
    let account = pk(5);
    let (ix1, metas) = process_recurse_then_increment_number(&account, 3, 1);
    assert_eq!(
        TestProgramInstruction::unpack(&ix1),
        Ok(TestProgramInstruction::RecurseThenIncrementNumber { call_depth: 2, amount: 1 })
    );
    assert_eq!(metas.len(), 1);
    assert!(metas[0].is_writable && !metas[0].is_signer);
    let (ix_last, _) = process_recurse_then_increment_number(&account, 0, 1);
    assert_eq!(
        TestProgramInstruction::unpack(&ix_last),
        Ok(TestProgramInstruction::IncrementNumber { amount: 1 })
    );
    // the net effect equals a single-shot increment by 1
    let direct = process_increment_number(&vec![0; 16], 1).unwrap();
    let mut s = TestProgramState { property1: 0, property2: 0 };
    s.increment(1).unwrap();
    assert_eq!(s.to_bytes(), direct);
}

#[test]
fn ledger_synthesized_accounts() {
    let g = ghost_program_account();
    assert!(g.executable);
    assert_eq!(g.owner, pubkey_debug_program_loader());
    assert_eq!(g.data.len(), 19);
    assert_eq!(
        pubkey_to_string(&pubkey_null()),
        "nu11111111111111111111111111111111111111111"
    );
    let c = clock_sysvar_account(3, 1000);
    assert_eq!(c.owner, pubkey_sysvar_owner());
    assert_eq!(
        pubkey_to_string(&pubkey_sysvar_owner()),
        "Sysvar1111111111111111111111111111111111111"
    );
    assert_eq!(c.data.len(), 40);
    assert_eq!(&c.data[0..8], &3u64.to_le_bytes());
    assert_eq!(&c.data[32..40], &1000u64.to_le_bytes());
    let r = rent_sysvar_account(3480);
    assert_eq!(r.owner, pubkey_sysvar_owner());
    assert_eq!(r.data.len(), 17);
    assert_eq!(&r.data[0..8], &3480u64.to_le_bytes());
    assert_eq!(r.data[15], 0x40); // the two-year exemption threshold
    assert_eq!(r.data[16], 100); // burn percent
}

#[test]
fn rent_exemption_formula() {
    assert_eq!(calc_min_balance_for_rent_exemption(0, 3480), 128 * 3480 * 2);
    assert_eq!(
        calc_min_balance_for_rent_exemption(100, 3480),
        (128 + 100) * 3480 * 2
    );
}

#[test]
fn blockhash_carries_the_slot() {
    let h = next_blockhash(9);
    assert_eq!(h.len(), 32);
    assert_eq!(&h[0..8], &9u64.to_le_bytes());
    assert!(h[8..].iter().all(|b| *b == 0));
}

#[test]
fn log_truncation() {
    let logs = vec!["a".to_string(); 3];
    assert_eq!(truncate_logs(logs.clone()), logs);
    let big = vec!["x".repeat(30_000), "y".repeat(30_000), "z".to_string()];
    let out = truncate_logs(big.clone());
    assert_eq!(out.len(), 2);
    assert_eq!(out[0], big[0]);
    assert_eq!(out[1], "Log truncated");
}

#[test]
fn indexed_file_offsets_and_search_step() {
    // header 16, separate 8-byte identifier, 100-byte entries
    assert_eq!(index_to_offset(16, 8, 100, true, 0), 16);
    assert_eq!(index_to_offset(16, 8, 100, true, 3), 16 + 3 * 108);
    assert_eq!(index_to_offset(0, 64, 8, true, 2), 2 * 72);
    assert_eq!(index_to_offset(16, 8, 100, false, 3), 16 + 300);
    assert_eq!(
        binary_search_step(0, 10, 5, 0),
        SearchStep::Done { result: IndexableFileSearchResult::Found(5) }
    );
    assert_eq!(
        binary_search_step(0, 10, 5, -1),
        SearchStep::Continue { left: 6, right: 10 }
    );
    assert_eq!(
        binary_search_step(0, 10, 5, 1),
        SearchStep::Continue { left: 0, right: 5 }
    );
}

#[test]
fn error_messages_and_codes() {
    assert!(!BokkenError::Stopping.message().is_empty());
    assert!(!BokkenError::ProgramClosedConnection.message().is_empty());
    assert!(!BokkenError::InstructionExecError(0, 1 << 32, vec![]).message().is_empty());
    assert_eq!(ProgramError::Custom(0).to_code(), 1 << 32);
    assert_eq!(ProgramError::Custom(9).to_code(), 9);
    assert_eq!(ProgramError::InvalidRealloc.to_code(), 20 << 32);
    assert_eq!(ProgramError::UnsupportedSysvar.to_code(), 17 << 32);
}

#[test]
fn account_equality_is_field_equality() {
    let a = BokkenAccountData {
        lamports: 1,
        data: vec![1],
        owner: pk(2),
        executable: false,
        rent_epoch: 3,
    };
    let mut b = a.duplicate();
    assert!(account_eq(&a, &b));
    b.data = vec![2];
    assert!(!account_eq(&a, &b));
}

#[test]
fn init_config_carries_the_mint() {
    let cfg = BokkenLedgerInitConfig { initial_mint: pk(4), initial_mint_lamports: 500 };
    assert_eq!(cfg.initial_mint, pk(4));
    assert_eq!(cfg.initial_mint_lamports, 500);
}

#[test]
fn rpc_response_builders() {
    let a = BokkenAccountData {
        lamports: 7,
        data: vec![1, 2],
        owner: pk(0),
        executable: false,
        rent_epoch: 0,
    };
    let resp = get_account_info_response(4, &a, RpcBinaryEncoding::Base64);
    assert_eq!(resp.context.slot, 4);
    let value = resp.value.unwrap();
    assert_eq!(value.lamports, 7);
    assert_eq!(value.owner, "11111111111111111111111111111111");
    assert_eq!(value.data.0, "AQI=");
    // an absent (zero-lamport) account reports no value
    let absent = BokkenAccountData {
        lamports: 0,
        data: vec![],
        owner: pk(0),
        executable: false,
        rent_epoch: 0,
    };
    assert!(get_account_info_response(4, &absent, RpcBinaryEncoding::Base64).value.is_none());
    assert_eq!(get_balance_response(4, 99).value, 99);
    let bh = get_latest_blockhash_response(4, &vec![0u8; 32]);
    assert_eq!(bh.value.blockhash, "11111111111111111111111111111111");
    assert_eq!(bh.value.last_valid_block_height, 100);
    let v = get_version_response();
    assert_eq!(v.solana_core, "1.13.5+debug-validator-0.0.1");
    assert_eq!(v.feature_set, 0);
}

#[test]
fn seeded_derivation_is_deterministic_and_not_identity() {
    let base = pk(1).to_bytes();
    let owner = pk(2).to_bytes();
    let first = create_with_seed(&base, "seed", &owner).unwrap();
    let second = create_with_seed(&base, "seed", &owner).unwrap();
    assert_eq!(first, second);
    assert_eq!(first.len(), 32);
    // the digest is not any of its inputs
    assert_ne!(first, base);
    assert_ne!(first, owner);
    let other = create_with_seed(&base, "another", &owner).unwrap();
    assert_ne!(first, other);
    // an over-long seed is rejected
    assert!(create_with_seed(&base, "123456789012345678901234567890123", &owner).is_err());
    // a program-derived address, when a seed is off-curve, differs per seed
    let pid = pk(9).to_bytes();
    let a = create_program_address(&vec![vec![1u8]], &pid);
    let b = create_program_address(&vec![vec![2u8]], &pid);
    if let (Ok(a), Ok(b)) = (a, b) {
        assert_ne!(a, b);
        assert_ne!(a, pid);
    }
}
