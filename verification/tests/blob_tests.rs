use bokken::account::{AccountMap, BokkenAccountData, BorshAccountMeta, ProgramError, Pubkey};
use bokken::blob::{SolanaAccountsBlob, ACCOUNT_HEADER_LEN, MAX_PERMITTED_DATA_INCREASE};

fn pk(n: u64) -> Pubkey {
    Pubkey { w0: n, w1: 0, w2: 0, w3: 0 }
}

fn acct(lamports: u64, data: Vec<u8>, owner: Pubkey) -> BokkenAccountData {
    BokkenAccountData { lamports, data, owner, executable: false, rent_epoch: 7 }
}

#[test]
fn blob_round_trip_single_account() {
    let a = pk(1);
    let owner = pk(9);
    let mut datas = AccountMap::new();
    datas.insert(a, acct(5, vec![1, 2, 3], owner));
    let metas = vec![BorshAccountMeta { pubkey: a, is_signer: true, is_writable: true }];
    let blob = SolanaAccountsBlob::new(pk(100), vec![0xAB], metas, datas);
    let got = blob.get_account_data(&a).expect("account present");
    assert_eq!(got.lamports, 5);
    assert_eq!(got.data, vec![1, 2, 3]);
    assert_eq!(got.owner, owner);
    assert!(!got.executable);
    assert_eq!(got.rent_epoch, 7);
    assert!(blob.is_signer(&a));
    assert!(blob.is_writable(&a));
    let snap = blob.get_account_datas();
    assert_eq!(snap.len(), 1);
    let back = snap.get(&a).expect("snapshot holds the account");
    assert_eq!(back.lamports, 5);
    assert_eq!(back.data, vec![1, 2, 3]);
    assert_eq!(back.rent_epoch, 7);
}

#[test]
fn blob_round_trip_multiple_accounts() {
    let a = pk(1);
    let b = pk(2);
    let mut datas = AccountMap::new();
    datas.insert(a, acct(10, vec![], pk(8)));
    datas.insert(b, acct(20, vec![9; 13], pk(8)));
    let metas = vec![
        BorshAccountMeta { pubkey: a, is_signer: false, is_writable: false },
        BorshAccountMeta { pubkey: b, is_signer: false, is_writable: true },
    ];
    let blob = SolanaAccountsBlob::new(pk(100), vec![], metas, datas);
    let snap = blob.get_account_datas();
    assert_eq!(snap.len(), 2);
    assert_eq!(snap.get(&a).unwrap().lamports, 10);
    assert_eq!(snap.get(&b).unwrap().data, vec![9; 13]);
    assert!(!blob.is_writable(&a));
    assert!(blob.is_writable(&b));
}

#[test]
fn blob_duplicate_encoded_as_back_reference() {
    let a = pk(1);
    let mut datas = AccountMap::new();
    datas.insert(a, acct(1, vec![], pk(8)));
    let metas = vec![
        BorshAccountMeta { pubkey: a, is_signer: true, is_writable: true },
        BorshAccountMeta { pubkey: a, is_signer: false, is_writable: false },
    ];
    let blob = SolanaAccountsBlob::new(pk(100), vec![], metas, datas);
    // count
    assert_eq!(&blob.bytes[0..8], &2u64.to_le_bytes());
    // one full record, starting with the 0xFF marker
    assert_eq!(blob.bytes[8], 0xFF);
    assert_eq!(blob.account_offsets.len(), 1);
    // record span with zero data: header + growth room + rent epoch
    let span = ACCOUNT_HEADER_LEN + MAX_PERMITTED_DATA_INCREASE + 8;
    let dup_at = 8 + span;
    // the second meta is an 8-byte back-reference to index 0
    assert_eq!(&blob.bytes[dup_at..dup_at + 8], &0u64.to_le_bytes());
    // no second 0xFF record for the same pubkey
    assert_eq!(blob.bytes.len(), dup_at + 8 + 8 + 0 + 32);
}

#[test]
fn blob_layout_flags_and_key() {
    let a = pk(3);
    let mut datas = AccountMap::new();
    datas.insert(a, acct(77, vec![5, 6], pk(8)));
    let metas = vec![BorshAccountMeta { pubkey: a, is_signer: true, is_writable: false }];
    let blob = SolanaAccountsBlob::new(pk(100), vec![1, 2, 3, 4], metas, datas);
    let off = 8;
    assert_eq!(blob.bytes[off], 0xFF);
    assert_eq!(blob.bytes[off + 1], 1); // signer
    assert_eq!(blob.bytes[off + 2], 0); // not writable
    assert_eq!(blob.bytes[off + 3], 0); // not executable
    assert_eq!(&blob.bytes[off + 4..off + 8], &2u32.to_le_bytes());
    assert_eq!(&blob.bytes[off + 8..off + 16], &3u64.to_le_bytes()); // key word 0
    assert_eq!(&blob.bytes[off + 72..off + 80], &77u64.to_le_bytes()); // lamports
    assert_eq!(&blob.bytes[off + 80..off + 88], &2u64.to_le_bytes()); // data len
    assert_eq!(&blob.bytes[off + 88..off + 90], &[5, 6]);
}

#[test]
fn realloc_cap_exact_boundary() {
    let a = pk(1);
    let mut datas = AccountMap::new();
    datas.insert(a, acct(1, vec![0; 4], pk(8)));
    let metas = vec![BorshAccountMeta { pubkey: a, is_signer: false, is_writable: true }];
    let mut blob = SolanaAccountsBlob::new(pk(100), vec![], metas, datas);
    // exactly at the cap: original length plus the permitted increase
    let at_cap = acct(2, vec![1; 4 + MAX_PERMITTED_DATA_INCREASE], pk(8));
    assert!(blob.set_account_data(&a, &at_cap).is_ok());
    let got = blob.get_account_data(&a).unwrap();
    assert_eq!(got.data.len(), 4 + MAX_PERMITTED_DATA_INCREASE);
    assert_eq!(got.lamports, 2);
    // one past the cap is rejected
    let over = acct(3, vec![1; 5 + MAX_PERMITTED_DATA_INCREASE], pk(8));
    assert_eq!(blob.set_account_data(&a, &over), Err(ProgramError::InvalidRealloc));
    // the rejected write changed nothing
    assert_eq!(blob.get_account_data(&a).unwrap().lamports, 2);
}

#[test]
fn set_account_unknown_pubkey() {
    let a = pk(1);
    let mut datas = AccountMap::new();
    datas.insert(a, acct(1, vec![], pk(8)));
    let metas = vec![BorshAccountMeta { pubkey: a, is_signer: false, is_writable: true }];
    let mut blob = SolanaAccountsBlob::new(pk(100), vec![], metas, datas);
    let stranger = pk(42);
    assert_eq!(
        blob.set_account_data(&stranger, &acct(0, vec![], pk(8))),
        Err(ProgramError::UninitializedAccount)
    );
}

#[test]
fn set_account_updates_owner_and_keeps_rent_epoch() {
    let a = pk(1);
    let mut datas = AccountMap::new();
    datas.insert(a, acct(1, vec![7; 3], pk(8)));
    let metas = vec![BorshAccountMeta { pubkey: a, is_signer: false, is_writable: true }];
    let mut blob = SolanaAccountsBlob::new(pk(100), vec![], metas, datas);
    let new_owner = pk(55);
    blob.set_account_data(&a, &acct(9, vec![1], new_owner)).unwrap();
    let got = blob.get_account_data(&a).unwrap();
    assert_eq!(got.owner, new_owner);
    assert_eq!(got.data, vec![1]);
    assert_eq!(got.rent_epoch, 7); // kept from the record
}

#[test]
fn sysvar_lookup_prefers_side_accounts() {
    let a = pk(1);
    let sysvar = pk(2);
    let mut datas = AccountMap::new();
    datas.insert(a, acct(1, vec![], pk(8)));
    datas.insert(sysvar, acct(99, vec![4, 4], pk(8)));
    let metas = vec![BorshAccountMeta { pubkey: a, is_signer: false, is_writable: true }];
    let blob = SolanaAccountsBlob::new(pk(100), vec![], metas, datas);
    // the sysvar was not in the metas, so it sits in the side map
    let got = blob.get_sysvar_data(&sysvar).expect("side account");
    assert_eq!(got.lamports, 99);
    assert!(blob.get_account_data(&sysvar).is_none());
    assert!(blob.get_sysvar_data(&pk(77)).is_none());
}
