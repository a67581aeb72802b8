use bokken::account::{AccountMap, BokkenAccountData, BorshAccountMeta, ProgramError, Pubkey};
use bokken::system_program::{
    parse_system_instruction, DebugSystemProgram, SystemInstruction, MAX_ACCOUNT_SIZE,
};

fn pk(n: u64) -> Pubkey {
    Pubkey { w0: n, w1: 0, w2: 0, w3: 0 }
}

fn plain(lamports: u64) -> BokkenAccountData {
    BokkenAccountData {
        lamports,
        data: Vec::new(),
        owner: Pubkey { w0: 0, w1: 0, w2: 0, w3: 0 },
        executable: false,
        rent_epoch: 0,
    }
}

fn pubkey_bytes(p: &Pubkey) -> Vec<u8> {
    let mut b = Vec::new();
    b.extend_from_slice(&p.w0.to_le_bytes());
    b.extend_from_slice(&p.w1.to_le_bytes());
    b.extend_from_slice(&p.w2.to_le_bytes());
    b.extend_from_slice(&p.w3.to_le_bytes());
    b
}

fn encode_create_account(lamports: u64, space: u64, owner: &Pubkey) -> Vec<u8> {
    let mut b = Vec::new();
    b.extend_from_slice(&0u32.to_le_bytes());
    b.extend_from_slice(&lamports.to_le_bytes());
    b.extend_from_slice(&space.to_le_bytes());
    b.extend_from_slice(&pubkey_bytes(owner));
    b
}

fn encode_transfer(lamports: u64) -> Vec<u8> {
    let mut b = Vec::new();
    b.extend_from_slice(&2u32.to_le_bytes());
    b.extend_from_slice(&lamports.to_le_bytes());
    b
}

fn encode_allocate(space: u64) -> Vec<u8> {
    let mut b = Vec::new();
    b.extend_from_slice(&8u32.to_le_bytes());
    b.extend_from_slice(&space.to_le_bytes());
    b
}

fn encode_assign(owner: &Pubkey) -> Vec<u8> {
    let mut b = Vec::new();
    b.extend_from_slice(&1u32.to_le_bytes());
    b.extend_from_slice(&pubkey_bytes(owner));
    b
}

fn encode_create_with_seed(
    base: &Pubkey,
    seed: &str,
    lamports: u64,
    space: u64,
    owner: &Pubkey,
) -> Vec<u8> {
    let mut b = Vec::new();
    b.extend_from_slice(&3u32.to_le_bytes());
    b.extend_from_slice(&pubkey_bytes(base));
    b.extend_from_slice(&(seed.len() as u64).to_le_bytes());
    b.extend_from_slice(seed.as_bytes());
    b.extend_from_slice(&lamports.to_le_bytes());
    b.extend_from_slice(&space.to_le_bytes());
    b.extend_from_slice(&pubkey_bytes(owner));
    b
}

#[test]
fn parse_create_account() {
    let owner = pk(9);
    let b = encode_create_account(11, 22, &owner);
    match parse_system_instruction(&b) {
        Some(SystemInstruction::CreateAccount { lamports, space, owner: o }) => {
            assert_eq!(lamports, 11);
            assert_eq!(space, 22);
            assert_eq!(o, owner);
        },
        other => panic!("parsed {:?}", other.is_some()),
    }
}

#[test]
fn parse_rejects_unknown_tag_and_truncation() {
    assert!(parse_system_instruction(&vec![4, 0, 0, 0]).is_none());
    assert!(parse_system_instruction(&vec![0, 0, 0]).is_none());
    assert!(parse_system_instruction(&encode_transfer(5)[0..10].to_vec()).is_none());
}

#[test]
fn transfer_moves_lamports() {
    let from = pk(1);
    let to = pk(2);
    let mut datas = AccountMap::new();
    datas.insert(from, plain(50));
    datas.insert(to, plain(5));
    let metas = vec![
        BorshAccountMeta { pubkey: from, is_signer: true, is_writable: true },
        BorshAccountMeta { pubkey: to, is_signer: false, is_writable: true },
    ];
    let mut prog = DebugSystemProgram::new();
    let r = prog.exec(encode_transfer(30), metas, &mut datas);
    assert!(r.is_ok());
    assert_eq!(datas.get(&from).unwrap().lamports, 20);
    assert_eq!(datas.get(&to).unwrap().lamports, 35);
}

#[test]
fn transfer_insufficient_funds() {
    let from = pk(1);
    let to = pk(2);
    let mut datas = AccountMap::new();
    datas.insert(from, plain(10));
    datas.insert(to, plain(0));
    let metas = vec![
        BorshAccountMeta { pubkey: from, is_signer: true, is_writable: true },
        BorshAccountMeta { pubkey: to, is_signer: false, is_writable: true },
    ];
    let mut prog = DebugSystemProgram::new();
    assert_eq!(
        prog.exec(encode_transfer(11), metas, &mut datas),
        Err(ProgramError::InsufficientFunds)
    );
}

#[test]
fn transfer_overflow_detected() {
    let from = pk(1);
    let to = pk(2);
    let mut datas = AccountMap::new();
    datas.insert(from, plain(10));
    datas.insert(to, plain(u64::MAX - 3));
    let metas = vec![
        BorshAccountMeta { pubkey: from, is_signer: true, is_writable: true },
        BorshAccountMeta { pubkey: to, is_signer: false, is_writable: true },
    ];
    let mut prog = DebugSystemProgram::new();
    assert_eq!(
        prog.exec(encode_transfer(5), metas, &mut datas),
        Err(ProgramError::ArithmeticOverflow)
    );
}

#[test]
fn transfer_requires_signature() {
    let from = pk(1);
    let to = pk(2);
    let mut datas = AccountMap::new();
    datas.insert(from, plain(50));
    datas.insert(to, plain(0));
    let metas = vec![
        BorshAccountMeta { pubkey: from, is_signer: false, is_writable: true },
        BorshAccountMeta { pubkey: to, is_signer: false, is_writable: true },
    ];
    let mut prog = DebugSystemProgram::new();
    assert_eq!(
        prog.exec(encode_transfer(1), metas, &mut datas),
        Err(ProgramError::MissingRequiredSignature)
    );
}

#[test]
fn create_account_funds_and_allocates() {
    let funder = pk(1);
    let fresh = pk(2);
    let owner = pk(77);
    let mut datas = AccountMap::new();
    datas.insert(funder, plain(1000));
    datas.insert(fresh, plain(0));
    let metas = vec![
        BorshAccountMeta { pubkey: funder, is_signer: true, is_writable: true },
        BorshAccountMeta { pubkey: fresh, is_signer: true, is_writable: true },
    ];
    let mut prog = DebugSystemProgram::new();
    let r = prog.exec(encode_create_account(400, 16, &owner), metas, &mut datas);
    assert!(r.is_ok());
    assert_eq!(datas.get(&funder).unwrap().lamports, 600);
    let created = datas.get(&fresh).unwrap();
    assert_eq!(created.lamports, 400);
    assert_eq!(created.owner, owner);
    assert_eq!(created.data, vec![0; 16]);
}

#[test]
fn create_account_already_initialized() {
    let funder = pk(1);
    let fresh = pk(2);
    let mut datas = AccountMap::new();
    datas.insert(funder, plain(1000));
    datas.insert(
        fresh,
        BokkenAccountData {
            lamports: 0,
            data: vec![1],
            owner: pk(0),
            executable: false,
            rent_epoch: 0,
        },
    );
    let metas = vec![
        BorshAccountMeta { pubkey: funder, is_signer: true, is_writable: true },
        BorshAccountMeta { pubkey: fresh, is_signer: true, is_writable: true },
    ];
    let mut prog = DebugSystemProgram::new();
    assert_eq!(
        prog.exec(encode_create_account(1, 1, &pk(7)), metas, &mut datas),
        Err(ProgramError::AccountAlreadyInitialized)
    );
}

#[test]
fn allocate_respects_size_cap() {
    let a = pk(1);
    let metas = vec![BorshAccountMeta { pubkey: a, is_signer: true, is_writable: true }];
    let mut datas = AccountMap::new();
    datas.insert(a, plain(5));
    let mut prog = DebugSystemProgram::new();
    assert_eq!(
        prog.exec(encode_allocate(MAX_ACCOUNT_SIZE + 1), metas.clone(), &mut datas),
        Err(ProgramError::InvalidRealloc)
    );
    // the failing path logged the oversize message
    assert_eq!(prog.logs().len(), 1);
    let mut datas2 = AccountMap::new();
    datas2.insert(a, plain(5));
    let r = prog.exec(encode_allocate(32), metas, &mut datas2);
    assert!(r.is_ok());
    assert_eq!(datas2.get(&a).unwrap().data.len(), 32);
}

#[test]
fn assign_changes_owner() {
    let a = pk(1);
    let new_owner = pk(33);
    let metas = vec![BorshAccountMeta { pubkey: a, is_signer: true, is_writable: true }];
    let mut datas = AccountMap::new();
    datas.insert(a, plain(5));
    let mut prog = DebugSystemProgram::new();
    assert!(prog.exec(encode_assign(&new_owner), metas, &mut datas).is_ok());
    assert_eq!(datas.get(&a).unwrap().owner, new_owner);
}

#[test]
fn not_enough_account_keys() {
    let mut datas = AccountMap::new();
    let mut prog = DebugSystemProgram::new();
    assert_eq!(
        prog.exec(encode_transfer(1), vec![], &mut datas),
        Err(ProgramError::NotEnoughAccountKeys)
    );
}

#[test]
fn writable_check_rejects() {
    let a = pk(1);
    let metas = vec![BorshAccountMeta { pubkey: a, is_signer: true, is_writable: false }];
    let mut datas = AccountMap::new();
    datas.insert(a, plain(5));
    let mut prog = DebugSystemProgram::new();
    assert_eq!(
        prog.exec(encode_allocate(1), metas, &mut datas),
        Err(ProgramError::PermissionEscalation)
    );
}

#[test]
fn invalid_instruction_data() {
    let mut datas = AccountMap::new();
    let mut prog = DebugSystemProgram::new();
    assert_eq!(
        prog.exec(vec![1, 2], vec![], &mut datas),
        Err(ProgramError::InvalidInstructionData)
    );
}

#[test]
fn create_with_seed_rejects_long_seed() {
    let funder = pk(1);
    let fresh = pk(2);
    let mut datas = AccountMap::new();
    datas.insert(funder, plain(1000));
    datas.insert(fresh, plain(0));
    let metas = vec![
        BorshAccountMeta { pubkey: funder, is_signer: true, is_writable: true },
        BorshAccountMeta { pubkey: fresh, is_signer: false, is_writable: true },
    ];
    let long_seed = "123456789012345678901234567890123"; // 33 bytes
    let mut prog = DebugSystemProgram::new();
    assert_eq!(
        prog.exec(
            encode_create_with_seed(&funder, long_seed, 1, 1, &pk(7)),
            metas,
            &mut datas
        ),
        Err(ProgramError::MaxSeedLengthExceeded)
    );
}

#[test]
fn create_with_seed_wrong_derived_address() {
    let funder = pk(1);
    let fresh = pk(2); // almost surely not the derived address
    let mut datas = AccountMap::new();
    datas.insert(funder, plain(1000));
    datas.insert(fresh, plain(0));
    let metas = vec![
        BorshAccountMeta { pubkey: funder, is_signer: true, is_writable: true },
        BorshAccountMeta { pubkey: fresh, is_signer: false, is_writable: true },
    ];
    let mut prog = DebugSystemProgram::new();
    assert_eq!(
        prog.exec(
            encode_create_with_seed(&funder, "seed", 1, 1, &pk(7)),
            metas,
            &mut datas
        ),
        Err(ProgramError::InvalidSeeds)
    );
}
