//! The emulated system program: the one built-in the validator runs
//! in-process. It decodes the platform's system instructions from their
//! fixed little-endian wire form and applies account creation, assignment,
//! allocation and transfers, including the seeded variants, under a 10 MiB
//! size cap. The whole effect is pinned by `spec_system_exec`.

use crate::account::{
    pubkey_bytes, AccountMap, AccountView, BokkenAccountData, BorshAccountMeta, ProgramError,
    Pubkey,
};
use crate::bytesutil::{push_zeros, read_bytes, read_pubkey, read_u32_le, read_u64_le, zero_bytes};
use crate::encodings::{string_from_utf8, string_to_bytes, utf8_of};
use crate::pda::{create_with_seed, pda_marker, seed_address_of};
use crate::textutil::{program_log, spec_program_log};
use vstd::bytes::{spec_u32_from_le_bytes, spec_u32_to_le_bytes, spec_u64_to_le_bytes};
use vstd::prelude::*;

verus! {

/// The largest data size the built-in allocation operations accept.
pub const MAX_ACCOUNT_SIZE: u64 = 10 * 1024 * 1024;

/// The system instructions the built-in implements.
pub enum SystemInstruction {
    CreateAccount { lamports: u64, space: u64, owner: Pubkey },
    Assign { owner: Pubkey },
    Transfer { lamports: u64 },
    CreateAccountWithSeed { base: Pubkey, seed: String, lamports: u64, space: u64, owner: Pubkey },
    Allocate { space: u64 },
    AllocateWithSeed { base: Pubkey, seed: String, space: u64, owner: Pubkey },
    AssignWithSeed { base: Pubkey, seed: String, owner: Pubkey },
    TransferWithSeed { lamports: u64, from_seed: String, from_owner: Pubkey },
}

/// The wire form of a seed string: length-prefixed UTF-8.
pub open spec fn spec_seed_bytes(seed: Seq<char>) -> Seq<u8> {
    spec_u64_to_le_bytes(utf8_of(seed).len() as u64) + utf8_of(seed)
}

/// The wire form of each instruction: a `u32` tag and the fields, little
/// endian.
pub open spec fn spec_system_ix_bytes(ix: SystemInstruction) -> Seq<u8> {
    match ix {
        SystemInstruction::CreateAccount { lamports, space, owner } => spec_u32_to_le_bytes(0)
            + spec_u64_to_le_bytes(lamports) + spec_u64_to_le_bytes(space) + pubkey_bytes(owner),
        SystemInstruction::Assign { owner } => spec_u32_to_le_bytes(1) + pubkey_bytes(owner),
        SystemInstruction::Transfer { lamports } => spec_u32_to_le_bytes(2) + spec_u64_to_le_bytes(
            lamports,
        ),
        SystemInstruction::CreateAccountWithSeed { base, seed, lamports, space, owner } => {
            spec_u32_to_le_bytes(3) + pubkey_bytes(base) + spec_seed_bytes(seed@)
                + spec_u64_to_le_bytes(lamports) + spec_u64_to_le_bytes(space) + pubkey_bytes(owner)
        },
        SystemInstruction::Allocate { space } => spec_u32_to_le_bytes(8) + spec_u64_to_le_bytes(
            space,
        ),
        SystemInstruction::AllocateWithSeed { base, seed, space, owner } => {
            spec_u32_to_le_bytes(9) + pubkey_bytes(base) + spec_seed_bytes(seed@)
                + spec_u64_to_le_bytes(space) + pubkey_bytes(owner)
        },
        SystemInstruction::AssignWithSeed { base, seed, owner } => {
            spec_u32_to_le_bytes(10) + pubkey_bytes(base) + spec_seed_bytes(seed@) + pubkey_bytes(
                owner,
            )
        },
        SystemInstruction::TransferWithSeed { lamports, from_seed, from_owner } => {
            spec_u32_to_le_bytes(11) + spec_u64_to_le_bytes(lamports) + spec_seed_bytes(from_seed@)
                + pubkey_bytes(from_owner)
        },
    }
}

/// The tag byte-word that opens each instruction's wire form.
pub open spec fn spec_ix_tag(ix: SystemInstruction) -> u32 {
    match ix {
        SystemInstruction::CreateAccount { .. } => 0,
        SystemInstruction::Assign { .. } => 1,
        SystemInstruction::Transfer { .. } => 2,
        SystemInstruction::CreateAccountWithSeed { .. } => 3,
        SystemInstruction::Allocate { .. } => 8,
        SystemInstruction::AllocateWithSeed { .. } => 9,
        SystemInstruction::AssignWithSeed { .. } => 10,
        SystemInstruction::TransferWithSeed { .. } => 11,
    }
}

/// `ix`'s wire form opens the byte string.
pub open spec fn spec_encodes_prefix(b: Seq<u8>, ix: SystemInstruction) -> bool {
    spec_system_ix_bytes(ix).len() <= b.len() && b.take(spec_system_ix_bytes(ix).len() as int)
        == spec_system_ix_bytes(ix)
}

/// A length-prefixed seed with characters `s` stands at `at` in `b`.
pub open spec fn spec_seed_at(b: Seq<u8>, at: int, s: Seq<char>) -> bool {
    &&& at >= 0
    &&& at + 8 + utf8_of(s).len() <= b.len()
    &&& b.subrange(at, at + 8 + utf8_of(s).len() as int) == spec_seed_bytes(s)
}

/// The two fields of a seed standing at `at`: its length word and its
/// UTF-8 bytes.
proof fn lemma_seed_at_parts(b: Seq<u8>, at: int, s: Seq<char>)
    requires
        spec_seed_at(b, at, s),
    ensures
        b.subrange(at, at + 8) == spec_u64_to_le_bytes(utf8_of(s).len() as u64),
        b.subrange(at + 8, at + 8 + utf8_of(s).len() as int) == utf8_of(s),
{
    vstd::bytes::lemma_auto_spec_u64_to_from_le_bytes();
    let l = utf8_of(s).len() as int;
    let sub = b.subrange(at, at + 8 + l);
    assert(b.subrange(at, at + 8) =~= sub.subrange(0, 8));
    assert(sub.subrange(0, 8) =~= spec_u64_to_le_bytes(utf8_of(s).len() as u64));
    assert(b.subrange(at + 8, at + 8 + l) =~= sub.subrange(8, 8 + l));
    assert(sub.subrange(8, 8 + l) =~= utf8_of(s));
}

/// Whatever instruction opens `b` fixes the tag word, a minimum length,
/// and, for the seeded forms, places a seed at a fixed offset.
proof fn lemma_prefix_shape(b: Seq<u8>, ix: SystemInstruction)
    requires
        spec_encodes_prefix(b, ix),
    ensures
        b.len() >= 12,
        b.subrange(0, 4) == spec_u32_to_le_bytes(spec_ix_tag(ix)),
        match ix {
            SystemInstruction::CreateAccount { .. } => b.len() >= 52,
            SystemInstruction::Assign { .. } => b.len() >= 36,
            SystemInstruction::Transfer { .. } => b.len() >= 12,
            SystemInstruction::Allocate { .. } => b.len() >= 12,
            SystemInstruction::CreateAccountWithSeed { seed, .. } => spec_seed_at(b, 36, seed@)
                && b.len() >= 44 + utf8_of(seed@).len() + 48,
            SystemInstruction::AllocateWithSeed { seed, .. } => spec_seed_at(b, 36, seed@)
                && b.len() >= 44 + utf8_of(seed@).len() + 40,
            SystemInstruction::AssignWithSeed { seed, .. } => spec_seed_at(b, 36, seed@) && b.len()
                >= 44 + utf8_of(seed@).len() + 32,
            SystemInstruction::TransferWithSeed { from_seed, .. } => spec_seed_at(b, 12, from_seed@)
                && b.len() >= 20 + utf8_of(from_seed@).len() + 32,
        },
{
    vstd::bytes::lemma_auto_spec_u64_to_from_le_bytes();
    vstd::bytes::lemma_auto_spec_u32_to_from_le_bytes();
    let enc = spec_system_ix_bytes(ix);
    let n = enc.len() as int;
    assert forall|k: int| 0 <= k < n implies b[k] == enc[k] by {
        assert(b.take(n)[k] == enc[k]);
    }
    assert(b.subrange(0, 4) =~= enc.subrange(0, 4));
    match ix {
        SystemInstruction::CreateAccount { owner, .. } => {
            crate::blob::lemma_pubkey_bytes_inverse(owner);
            assert(enc.subrange(0, 4) =~= spec_u32_to_le_bytes(0));
        },
        SystemInstruction::Assign { owner } => {
            crate::blob::lemma_pubkey_bytes_inverse(owner);
            assert(enc.subrange(0, 4) =~= spec_u32_to_le_bytes(1));
        },
        SystemInstruction::Transfer { .. } => {
            assert(enc.subrange(0, 4) =~= spec_u32_to_le_bytes(2));
        },
        SystemInstruction::CreateAccountWithSeed { base, seed, owner, .. } => {
            crate::blob::lemma_pubkey_bytes_inverse(base);
            crate::blob::lemma_pubkey_bytes_inverse(owner);
            let l = utf8_of(seed@).len() as int;
            assert(enc.subrange(0, 4) =~= spec_u32_to_le_bytes(3));
            assert(b.subrange(36, 44 + l) =~= enc.subrange(36, 44 + l));
            assert(enc.subrange(36, 44 + l) =~= spec_seed_bytes(seed@));
        },
        SystemInstruction::Allocate { .. } => {
            assert(enc.subrange(0, 4) =~= spec_u32_to_le_bytes(8));
        },
        SystemInstruction::AllocateWithSeed { base, seed, owner, .. } => {
            crate::blob::lemma_pubkey_bytes_inverse(base);
            crate::blob::lemma_pubkey_bytes_inverse(owner);
            let l = utf8_of(seed@).len() as int;
            assert(enc.subrange(0, 4) =~= spec_u32_to_le_bytes(9));
            assert(b.subrange(36, 44 + l) =~= enc.subrange(36, 44 + l));
            assert(enc.subrange(36, 44 + l) =~= spec_seed_bytes(seed@));
        },
        SystemInstruction::AssignWithSeed { base, seed, owner } => {
            crate::blob::lemma_pubkey_bytes_inverse(base);
            crate::blob::lemma_pubkey_bytes_inverse(owner);
            let l = utf8_of(seed@).len() as int;
            assert(enc.subrange(0, 4) =~= spec_u32_to_le_bytes(10));
            assert(b.subrange(36, 44 + l) =~= enc.subrange(36, 44 + l));
            assert(enc.subrange(36, 44 + l) =~= spec_seed_bytes(seed@));
        },
        SystemInstruction::TransferWithSeed { from_seed, from_owner, .. } => {
            crate::blob::lemma_pubkey_bytes_inverse(from_owner);
            let l = utf8_of(from_seed@).len() as int;
            assert(enc.subrange(0, 4) =~= spec_u32_to_le_bytes(11));
            assert(b.subrange(12, 20 + l) =~= enc.subrange(12, 20 + l));
            assert(enc.subrange(12, 20 + l) =~= spec_seed_bytes(from_seed@));
        },
    }
}

/// Read a length-prefixed seed string at `at`; `None` exactly when no
/// seed stands there (truncation, an oversized length, or bad UTF-8).
fn parse_seed(b: &Vec<u8>, at: usize) -> (r: Option<(String, usize)>)
    ensures
        r matches Some((s, next)) ==> at + 8 <= b@.len() && next == at + 8 + utf8_of(s@).len()
            && next <= b@.len() && b@.subrange(at as int, next as int) == spec_seed_bytes(s@),
        (r is None) ==> forall|t: Seq<char>| !spec_seed_at(b@, at as int, t),
{
    let blen: usize = b.len();
    if at > blen || blen - at < 8 {
        proof {
            assert forall|t: Seq<char>| !spec_seed_at(b@, at as int, t) by {}
        }
        return None;
    }
    let n = read_u64_le(b, at);
    if n > (blen - at - 8) as u64 {
        proof {
            vstd::bytes::lemma_auto_spec_u64_to_from_le_bytes();
            assert forall|t: Seq<char>| !spec_seed_at(b@, at as int, t) by {
                if spec_seed_at(b@, at as int, t) {
                    lemma_seed_at_parts(b@, at as int, t);
                    assert(utf8_of(t).len() <= b@.len());
                    assert(n == utf8_of(t).len() as u64);
                }
            }
        }
        return None;
    }
    let len = n as usize;
    let bytes = read_bytes(b, at + 8, len);
    let ghost raw = bytes@;
    match string_from_utf8(bytes) {
        Some(s) => {
            proof {
                assert(utf8_of(s@) == raw);
                vstd::bytes::lemma_auto_spec_u64_to_from_le_bytes();
                assert(b@.subrange(at as int, at + 8 + len) =~= spec_seed_bytes(s@)) by {
                    assert(b@.subrange(at as int, at + 8) =~= spec_u64_to_le_bytes(n));
                    assert(b@.subrange(at as int, at + 8 + len).subrange(0, 8) =~= b@.subrange(
                        at as int,
                        at + 8,
                    ));
                    assert(b@.subrange(at as int, at + 8 + len).subrange(8, 8 + len) =~= b@
                        .subrange(at + 8, at + 8 + len));
                    assert(spec_seed_bytes(s@).subrange(0, 8) =~= spec_u64_to_le_bytes(
                        utf8_of(s@).len() as u64,
                    ));
                    assert(spec_seed_bytes(s@).subrange(8, 8 + len) =~= utf8_of(s@));
                    assert(b@.subrange(at as int, at + 8 + len) =~= b@.subrange(
                        at as int,
                        at + 8 + len,
                    ).subrange(0, 8) + b@.subrange(at as int, at + 8 + len).subrange(8, 8 + len));
                }
            }
            Some((s, at + 8 + len))
        },
        None => {
            proof {
                vstd::bytes::lemma_auto_spec_u64_to_from_le_bytes();
                assert forall|t: Seq<char>| !spec_seed_at(b@, at as int, t) by {
                    if spec_seed_at(b@, at as int, t) {
                        lemma_seed_at_parts(b@, at as int, t);
                        assert(utf8_of(t).len() <= b@.len());
                        assert(n == utf8_of(t).len() as u64);
                        assert(raw == utf8_of(t));
                    }
                }
            }
            None
        },
    }
}

/// Decode a system instruction from its wire form. A successful parse is
/// sound (the recognized prefix re-encodes to exactly these bytes), and a
/// failed one is complete: no instruction's wire form opens the input.
pub fn parse_system_instruction(b: &Vec<u8>) -> (r: Option<SystemInstruction>)
    ensures
        r matches Some(ix) ==> spec_encodes_prefix(b@, ix),
        (r is None) ==> forall|ix: SystemInstruction| !spec_encodes_prefix(b@, ix),
{
    let blen: usize = b.len();
    if blen < 4 {
        proof {
            assert forall|ix: SystemInstruction| !spec_encodes_prefix(b@, ix) by {
                if spec_encodes_prefix(b@, ix) {
                    lemma_prefix_shape(b@, ix);
                }
            }
        }
        return None;
    }
    let tag = read_u32_le(b, 0);
    proof {
        vstd::bytes::lemma_auto_spec_u32_to_from_le_bytes();
        vstd::bytes::lemma_auto_spec_u64_to_from_le_bytes();
        assert(b@.subrange(0, 4) =~= spec_u32_to_le_bytes(tag));
    }
    match tag {
        0 => {
            if blen < 52 {
                proof {
                    assert forall|ix: SystemInstruction| !spec_encodes_prefix(b@, ix) by {
                        if spec_encodes_prefix(b@, ix) {
                            lemma_prefix_shape(b@, ix);
                            assert(spec_u32_from_le_bytes(b@.subrange(0, 4)) == spec_ix_tag(ix));
                        }
                    }
                }
                return None;
            }
            let lamports = read_u64_le(b, 4);
            let space = read_u64_le(b, 12);
            let owner = read_pubkey(b, 20);
            let ix = SystemInstruction::CreateAccount { lamports, space, owner };
            proof {
                assert(b@.take(52) =~= spec_system_ix_bytes(ix));
            }
            Some(ix)
        },
        1 => {
            if blen < 36 {
                proof {
                    assert forall|ix: SystemInstruction| !spec_encodes_prefix(b@, ix) by {
                        if spec_encodes_prefix(b@, ix) {
                            lemma_prefix_shape(b@, ix);
                            assert(spec_u32_from_le_bytes(b@.subrange(0, 4)) == spec_ix_tag(ix));
                        }
                    }
                }
                return None;
            }
            let owner = read_pubkey(b, 4);
            let ix = SystemInstruction::Assign { owner };
            proof {
                assert(b@.take(36) =~= spec_system_ix_bytes(ix));
            }
            Some(ix)
        },
        2 => {
            if blen < 12 {
                proof {
                    assert forall|ix: SystemInstruction| !spec_encodes_prefix(b@, ix) by {
                        if spec_encodes_prefix(b@, ix) {
                            lemma_prefix_shape(b@, ix);
                            assert(spec_u32_from_le_bytes(b@.subrange(0, 4)) == spec_ix_tag(ix));
                        }
                    }
                }
                return None;
            }
            let lamports = read_u64_le(b, 4);
            let ix = SystemInstruction::Transfer { lamports };
            proof {
                assert(b@.take(12) =~= spec_system_ix_bytes(ix));
            }
            Some(ix)
        },
        3 => {
            if blen < 36 {
                proof {
                    assert forall|ix: SystemInstruction| !spec_encodes_prefix(b@, ix) by {
                        if spec_encodes_prefix(b@, ix) {
                            lemma_prefix_shape(b@, ix);
                            assert(spec_u32_from_le_bytes(b@.subrange(0, 4)) == spec_ix_tag(ix));
                        }
                    }
                }
                return None;
            }
            let base = read_pubkey(b, 4);
            let (seed, next) = match parse_seed(b, 36) {
                Some(x) => x,
                None => {
                    proof {
                        assert forall|ix: SystemInstruction| !spec_encodes_prefix(b@, ix) by {
                            if spec_encodes_prefix(b@, ix) {
                                lemma_prefix_shape(b@, ix);
                                assert(spec_u32_from_le_bytes(b@.subrange(0, 4)) == spec_ix_tag(
                                    ix,
                                ));
                            }
                        }
                    }
                    return None;
                },
            };
            if blen - next < 48 {
                proof {
                    assert(spec_seed_at(b@, 36, seed@));
                    lemma_seed_at_parts(b@, 36, seed@);
                    assert forall|ix: SystemInstruction| !spec_encodes_prefix(b@, ix) by {
                        if spec_encodes_prefix(b@, ix) {
                            lemma_prefix_shape(b@, ix);
                            assert(spec_u32_from_le_bytes(b@.subrange(0, 4)) == spec_ix_tag(ix));
                            match ix {
                                SystemInstruction::CreateAccountWithSeed { seed: s2, .. } => {
                                    lemma_seed_at_parts(b@, 36, s2@);
                                    assert(utf8_of(s2@).len() as u64 == utf8_of(seed@).len()
                                        as u64);
                                },
                                _ => {},
                            }
                        }
                    }
                }
                return None;
            }
            let lamports = read_u64_le(b, next);
            let space = read_u64_le(b, next + 8);
            let owner = read_pubkey(b, next + 16);
            let ix = SystemInstruction::CreateAccountWithSeed {
                base,
                seed,
                lamports,
                space,
                owner,
            };
            proof {
                assert(b@.take(next + 48) =~= spec_system_ix_bytes(ix));
            }
            Some(ix)
        },
        8 => {
            if blen < 12 {
                proof {
                    assert forall|ix: SystemInstruction| !spec_encodes_prefix(b@, ix) by {
                        if spec_encodes_prefix(b@, ix) {
                            lemma_prefix_shape(b@, ix);
                            assert(spec_u32_from_le_bytes(b@.subrange(0, 4)) == spec_ix_tag(ix));
                        }
                    }
                }
                return None;
            }
            let space = read_u64_le(b, 4);
            let ix = SystemInstruction::Allocate { space };
            proof {
                assert(b@.take(12) =~= spec_system_ix_bytes(ix));
            }
            Some(ix)
        },
        9 => {
            if blen < 36 {
                proof {
                    assert forall|ix: SystemInstruction| !spec_encodes_prefix(b@, ix) by {
                        if spec_encodes_prefix(b@, ix) {
                            lemma_prefix_shape(b@, ix);
                            assert(spec_u32_from_le_bytes(b@.subrange(0, 4)) == spec_ix_tag(ix));
                        }
                    }
                }
                return None;
            }
            let base = read_pubkey(b, 4);
            let (seed, next) = match parse_seed(b, 36) {
                Some(x) => x,
                None => {
                    proof {
                        assert forall|ix: SystemInstruction| !spec_encodes_prefix(b@, ix) by {
                            if spec_encodes_prefix(b@, ix) {
                                lemma_prefix_shape(b@, ix);
                                assert(spec_u32_from_le_bytes(b@.subrange(0, 4)) == spec_ix_tag(
                                    ix,
                                ));
                            }
                        }
                    }
                    return None;
                },
            };
            if blen - next < 40 {
                proof {
                    assert(spec_seed_at(b@, 36, seed@));
                    lemma_seed_at_parts(b@, 36, seed@);
                    assert forall|ix: SystemInstruction| !spec_encodes_prefix(b@, ix) by {
                        if spec_encodes_prefix(b@, ix) {
                            lemma_prefix_shape(b@, ix);
                            assert(spec_u32_from_le_bytes(b@.subrange(0, 4)) == spec_ix_tag(ix));
                            match ix {
                                SystemInstruction::AllocateWithSeed { seed: s2, .. } => {
                                    lemma_seed_at_parts(b@, 36, s2@);
                                    assert(utf8_of(s2@).len() as u64 == utf8_of(seed@).len()
                                        as u64);
                                },
                                _ => {},
                            }
                        }
                    }
                }
                return None;
            }
            let space = read_u64_le(b, next);
            let owner = read_pubkey(b, next + 8);
            let ix = SystemInstruction::AllocateWithSeed { base, seed, space, owner };
            proof {
                assert(b@.take(next + 40) =~= spec_system_ix_bytes(ix));
            }
            Some(ix)
        },
        10 => {
            if blen < 36 {
                proof {
                    assert forall|ix: SystemInstruction| !spec_encodes_prefix(b@, ix) by {
                        if spec_encodes_prefix(b@, ix) {
                            lemma_prefix_shape(b@, ix);
                            assert(spec_u32_from_le_bytes(b@.subrange(0, 4)) == spec_ix_tag(ix));
                        }
                    }
                }
                return None;
            }
            let base = read_pubkey(b, 4);
            let (seed, next) = match parse_seed(b, 36) {
                Some(x) => x,
                None => {
                    proof {
                        assert forall|ix: SystemInstruction| !spec_encodes_prefix(b@, ix) by {
                            if spec_encodes_prefix(b@, ix) {
                                lemma_prefix_shape(b@, ix);
                                assert(spec_u32_from_le_bytes(b@.subrange(0, 4)) == spec_ix_tag(
                                    ix,
                                ));
                            }
                        }
                    }
                    return None;
                },
            };
            if blen - next < 32 {
                proof {
                    assert(spec_seed_at(b@, 36, seed@));
                    lemma_seed_at_parts(b@, 36, seed@);
                    assert forall|ix: SystemInstruction| !spec_encodes_prefix(b@, ix) by {
                        if spec_encodes_prefix(b@, ix) {
                            lemma_prefix_shape(b@, ix);
                            assert(spec_u32_from_le_bytes(b@.subrange(0, 4)) == spec_ix_tag(ix));
                            match ix {
                                SystemInstruction::AssignWithSeed { seed: s2, .. } => {
                                    lemma_seed_at_parts(b@, 36, s2@);
                                    assert(utf8_of(s2@).len() as u64 == utf8_of(seed@).len()
                                        as u64);
                                },
                                _ => {},
                            }
                        }
                    }
                }
                return None;
            }
            let owner = read_pubkey(b, next);
            let ix = SystemInstruction::AssignWithSeed { base, seed, owner };
            proof {
                assert(b@.take(next + 32) =~= spec_system_ix_bytes(ix));
            }
            Some(ix)
        },
        11 => {
            if blen < 12 {
                proof {
                    assert forall|ix: SystemInstruction| !spec_encodes_prefix(b@, ix) by {
                        if spec_encodes_prefix(b@, ix) {
                            lemma_prefix_shape(b@, ix);
                            assert(spec_u32_from_le_bytes(b@.subrange(0, 4)) == spec_ix_tag(ix));
                        }
                    }
                }
                return None;
            }
            let lamports = read_u64_le(b, 4);
            let (from_seed, next) = match parse_seed(b, 12) {
                Some(x) => x,
                None => {
                    proof {
                        assert forall|ix: SystemInstruction| !spec_encodes_prefix(b@, ix) by {
                            if spec_encodes_prefix(b@, ix) {
                                lemma_prefix_shape(b@, ix);
                                assert(spec_u32_from_le_bytes(b@.subrange(0, 4)) == spec_ix_tag(
                                    ix,
                                ));
                            }
                        }
                    }
                    return None;
                },
            };
            if blen - next < 32 {
                proof {
                    assert(spec_seed_at(b@, 12, from_seed@));
                    lemma_seed_at_parts(b@, 12, from_seed@);
                    assert forall|ix: SystemInstruction| !spec_encodes_prefix(b@, ix) by {
                        if spec_encodes_prefix(b@, ix) {
                            lemma_prefix_shape(b@, ix);
                            assert(spec_u32_from_le_bytes(b@.subrange(0, 4)) == spec_ix_tag(ix));
                            match ix {
                                SystemInstruction::TransferWithSeed { from_seed: s2, .. } => {
                                    lemma_seed_at_parts(b@, 12, s2@);
                                    assert(utf8_of(s2@).len() as u64 == utf8_of(from_seed@).len()
                                        as u64);
                                },
                                _ => {},
                            }
                        }
                    }
                }
                return None;
            }
            let from_owner = read_pubkey(b, next);
            let ix = SystemInstruction::TransferWithSeed { lamports, from_seed, from_owner };
            proof {
                assert(b@.take(next + 32) =~= spec_system_ix_bytes(ix));
            }
            Some(ix)
        },
        _ => {
            proof {
                assert forall|ix: SystemInstruction| !spec_encodes_prefix(b@, ix) by {
                    if spec_encodes_prefix(b@, ix) {
                        lemma_prefix_shape(b@, ix);
                        assert(spec_u32_from_le_bytes(b@.subrange(0, 4)) == spec_ix_tag(ix));
                    }
                }
            }
            None
        },
    }
}

/// The meta-validation outcome for `assert_account_meta`: which error, if
/// any, the flag checks give at `index`.
pub open spec fn spec_meta_check(
    metas: Seq<BorshAccountMeta>,
    index: int,
    writable: bool,
    signer: bool,
) -> Option<ProgramError> {
    if metas.len() <= index {
        Some(ProgramError::NotEnoughAccountKeys)
    } else if writable && !metas[index].is_writable {
        Some(ProgramError::PermissionEscalation)
    } else if signer && !metas[index].is_signer {
        Some(ProgramError::MissingRequiredSignature)
    } else {
        None
    }
}

/// Validate the meta at `index` and take its account out of `datas`.
pub fn assert_account_meta(
    metas: &Vec<BorshAccountMeta>,
    datas: &mut AccountMap,
    index: usize,
    writable: bool,
    signer: bool,
) -> (r: Result<(Pubkey, BokkenAccountData), ProgramError>)
    ensures
        match r {
            Ok((pk, a)) => spec_meta_check(metas@, index as int, writable, signer) is None && pk
                == metas@[index as int].pubkey && old(datas)@.dom().contains(pk) && a@ == old(
                datas,
            )@[pk] && final(datas)@ == old(datas)@.remove(pk),
            Err(e) => final(datas)@ == old(datas)@ && (match spec_meta_check(
                metas@,
                index as int,
                writable,
                signer,
            ) {
                Some(e2) => e == e2,
                None => !old(datas)@.dom().contains(metas@[index as int].pubkey) && e
                    == ProgramError::NotEnoughAccountKeys,
            }),
        },
{
    if index >= metas.len() {
        return Err(ProgramError::NotEnoughAccountKeys);
    }
    let meta = metas[index];
    if writable && !meta.is_writable {
        return Err(ProgramError::PermissionEscalation);
    }
    if signer && !meta.is_signer {
        return Err(ProgramError::MissingRequiredSignature);
    }
    match datas.remove(&meta.pubkey) {
        Some(a) => Ok((meta.pubkey, a)),
        None => {
            proof {
                assert(datas@ =~= old(datas)@);
            }
            Err(ProgramError::NotEnoughAccountKeys)
        },
    }
}

/// An account view with `data` replaced by `space` zero bytes and `owner`
/// set: what a fresh allocation looks like.
pub open spec fn spec_alloc(a: AccountView, space: u64, owner: Pubkey) -> AccountView {
    AccountView { data: zero_bytes(space as int), owner, ..a }
}

/// Move `lamports` between two views, or say which error stops it.
pub open spec fn spec_move(
    from: AccountView,
    to: AccountView,
    lamports: u64,
) -> Result<(AccountView, AccountView), ProgramError> {
    if from.lamports < lamports {
        Err(ProgramError::InsufficientFunds)
    } else if to.lamports + lamports > u64::MAX {
        Err(ProgramError::ArithmeticOverflow)
    } else {
        Ok(
            (
                AccountView { lamports: (from.lamports - lamports) as u64, ..from },
                AccountView { lamports: (to.lamports + lamports) as u64, ..to },
            ),
        )
    }
}

/// The whole effect of the system program on the account map: the result
/// code and the map it leaves behind (accounts taken out by a failing path
/// stay out; the transaction aborts in that case).
pub open spec fn spec_system_exec(
    ix: SystemInstruction,
    metas: Seq<BorshAccountMeta>,
    datas: Map<Pubkey, AccountView>,
) -> (Result<(), ProgramError>, Map<Pubkey, AccountView>) {
    match ix {
        SystemInstruction::CreateAccount { lamports, space, owner } => spec_create_account(
            metas,
            datas,
            lamports,
            space,
            owner,
            false,
            Option::<(Pubkey, Seq<char>)>::None,
        ),
        SystemInstruction::CreateAccountWithSeed { base, seed, lamports, space, owner } => {
            spec_create_account(metas, datas, lamports, space, owner, true, Some((base, seed@)))
        },
        SystemInstruction::Assign { owner } => {
            match spec_take(metas, datas, 0, true, true) {
                Ok((pk, a, d)) => (Ok(()), d.insert(pk, AccountView { owner, ..a })),
                Err((e, d)) => (Err(e), d),
            }
        },
        SystemInstruction::Transfer { lamports } => {
            match spec_take(metas, datas, 0, true, true) {
                Ok((from_pk, from, d)) => match spec_take(metas, d, 1, true, false) {
                    Ok((to_pk, to, d2)) => match spec_move(from, to, lamports) {
                        Ok((from2, to2)) => (Ok(()), d2.insert(from_pk, from2).insert(to_pk, to2)),
                        Err(e) => (Err(e), d2),
                    },
                    Err((e, d2)) => (Err(e), d2),
                },
                Err((e, d)) => (Err(e), d),
            }
        },
        SystemInstruction::Allocate { space } => {
            match spec_take(metas, datas, 0, true, true) {
                Ok((pk, a, d)) => {
                    if a.data.len() > 0 {
                        (Err(ProgramError::AccountAlreadyInitialized), d)
                    } else if space > MAX_ACCOUNT_SIZE {
                        (Err(ProgramError::InvalidRealloc), d)
                    } else {
                        (Ok(()), d.insert(pk, spec_alloc(a, space, a.owner)))
                    }
                },
                Err((e, d)) => (Err(e), d),
            }
        },
        SystemInstruction::AllocateWithSeed { base, seed, space, owner } => {
            match spec_take(metas, datas, 0, true, false) {
                Ok((pk, a, d)) => {
                    if a.data.len() > 0 {
                        (Err(ProgramError::AccountAlreadyInitialized), d)
                    } else if space > MAX_ACCOUNT_SIZE {
                        (Err(ProgramError::InvalidRealloc), d)
                    } else {
                        match spec_seed_check(metas, base, seed@, owner, pk) {
                            Some(e) => (Err(e), d),
                            None => (Ok(()), d.insert(pk, spec_alloc(a, space, a.owner))),
                        }
                    }
                },
                Err((e, d)) => (Err(e), d),
            }
        },
        SystemInstruction::AssignWithSeed { base, seed, owner } => {
            match spec_take(metas, datas, 0, true, false) {
                Ok((pk, a, d)) => match spec_seed_check(metas, base, seed@, owner, pk) {
                    Some(e) => (Err(e), d),
                    None => (Ok(()), d.insert(pk, AccountView { owner, ..a })),
                },
                Err((e, d)) => (Err(e), d),
            }
        },
        SystemInstruction::TransferWithSeed { lamports, from_seed, from_owner } => {
            match spec_take(metas, datas, 0, true, false) {
                Ok((from_pk, from, d)) => {
                    if metas.len() <= 1 {
                        (Err(ProgramError::NotEnoughAccountKeys), d)
                    } else if !metas[1].is_signer {
                        (Err(ProgramError::MissingRequiredSignature), d)
                    } else {
                        match spec_derive(metas[1].pubkey, from_seed@, from_owner) {
                            Err(e) => (Err(e), d),
                            Ok(derived) => {
                                if pubkey_bytes(from_pk) != derived {
                                    (Err(ProgramError::InvalidSeeds), d)
                                } else {
                                    match spec_take(metas, d, 2, true, false) {
                                        Ok((to_pk, to, d2)) => match spec_move(
                                            from,
                                            to,
                                            lamports,
                                        ) {
                                            Ok((from2, to2)) => (
                                                Ok(()),
                                                d2.insert(from_pk, from2).insert(to_pk, to2),
                                            ),
                                            Err(e) => (Err(e), d2),
                                        },
                                        Err((e, d2)) => (Err(e), d2),
                                    }
                                }
                            },
                        }
                    }
                },
                Err((e, d)) => (Err(e), d),
            }
        },
    }
}

/// The spec-level counterpart of `assert_account_meta`.
pub open spec fn spec_take(
    metas: Seq<BorshAccountMeta>,
    datas: Map<Pubkey, AccountView>,
    index: int,
    writable: bool,
    signer: bool,
) -> Result<(Pubkey, AccountView, Map<Pubkey, AccountView>), (
    ProgramError,
    Map<Pubkey, AccountView>,
)> {
    match spec_meta_check(metas, index, writable, signer) {
        Some(e) => Err((e, datas)),
        None => {
            let pk = metas[index].pubkey;
            if datas.dom().contains(pk) {
                Ok((pk, datas[pk], datas.remove(pk)))
            } else {
                Err((ProgramError::NotEnoughAccountKeys, datas))
            }
        },
    }
}

/// What the platform's seeded derivation yields, or which error stops it.
pub open spec fn spec_derive(base: Pubkey, seed: Seq<char>, owner: Pubkey) -> Result<
    Seq<u8>,
    ProgramError,
> {
    if utf8_of(seed).len() > 32 {
        Err(ProgramError::MaxSeedLengthExceeded)
    } else if pubkey_bytes(owner).subrange(11, 32) == pda_marker() {
        Err(ProgramError::IllegalOwner)
    } else {
        Ok(seed_address_of(pubkey_bytes(base), seed, pubkey_bytes(owner)))
    }
}

/// The seeded-variant checks: the base must have signed (unless it is the
/// account itself at index 1) and the account must be the derived address.
pub open spec fn spec_seed_check(
    metas: Seq<BorshAccountMeta>,
    base: Pubkey,
    seed: Seq<char>,
    owner: Pubkey,
    account: Pubkey,
) -> Option<ProgramError> {
    if metas.len() <= 1 {
        Some(ProgramError::NotEnoughAccountKeys)
    } else if !metas[1].is_signer {
        Some(ProgramError::MissingRequiredSignature)
    } else if metas[1].pubkey != base {
        Some(ProgramError::MissingRequiredSignature)
    } else {
        match spec_derive(base, seed, owner) {
            Err(e) => Some(e),
            Ok(derived) => {
                if pubkey_bytes(account) != derived {
                    Some(ProgramError::InvalidSeeds)
                } else {
                    None
                }
            },
        }
    }
}

/// The create paths share this spec: fund and initialize a fresh account.
/// For the seeded form the funding account must sign, the new account need
/// not, and the base either is the funder or must sign at index 2.
pub open spec fn spec_create_account(
    metas: Seq<BorshAccountMeta>,
    datas: Map<Pubkey, AccountView>,
    lamports: u64,
    space: u64,
    owner: Pubkey,
    seeded: bool,
    seed_info: Option<(Pubkey, Seq<char>)>,
) -> (Result<(), ProgramError>, Map<Pubkey, AccountView>) {
    match spec_take(metas, datas, 0, true, true) {
        Err((e, d)) => (Err(e), d),
        Ok((funding_pk, funding, d)) => match spec_take(metas, d, 1, true, !seeded) {
            Err((e, d2)) => (Err(e), d2),
            Ok((new_pk, new, d2)) => {
                match (seeded, seed_info) {
                    (true, Some((base, seed))) => {
                        if base != funding_pk && (metas.len() <= 2 || !metas[2].is_signer) {
                            if metas.len() <= 2 {
                                (Err(ProgramError::NotEnoughAccountKeys), d2)
                            } else {
                                (Err(ProgramError::MissingRequiredSignature), d2)
                            }
                        } else {
                            match spec_derive(base, seed, owner) {
                                Err(e) => (Err(e), d2),
                                Ok(derived) => {
                                    if pubkey_bytes(new_pk) != derived {
                                        (Err(ProgramError::InvalidSeeds), d2)
                                    } else {
                                        spec_create_finish(
                                            d2,
                                            funding_pk,
                                            funding,
                                            new_pk,
                                            new,
                                            lamports,
                                            space,
                                            owner,
                                        )
                                    }
                                },
                            }
                        }
                    },
                    _ => spec_create_finish(
                        d2,
                        funding_pk,
                        funding,
                        new_pk,
                        new,
                        lamports,
                        space,
                        owner,
                    ),
                }
            },
        },
    }
}

pub open spec fn spec_create_finish(
    d: Map<Pubkey, AccountView>,
    funding_pk: Pubkey,
    funding: AccountView,
    new_pk: Pubkey,
    new: AccountView,
    lamports: u64,
    space: u64,
    owner: Pubkey,
) -> (Result<(), ProgramError>, Map<Pubkey, AccountView>) {
    if new.data.len() > 0 {
        (Err(ProgramError::AccountAlreadyInitialized), d)
    } else if space > MAX_ACCOUNT_SIZE {
        (Err(ProgramError::InvalidRealloc), d)
    } else {
        match spec_move(funding, new, lamports) {
            Err(e) => (Err(e), d),
            Ok((funding2, new2)) => (
                Ok(()),
                d.insert(funding_pk, funding2).insert(new_pk, spec_alloc(new2, space, owner)),
            ),
        }
    }
}


/// Checked lamport movement matching `spec_move`.
fn checked_move(from: &mut BokkenAccountData, to: &mut BokkenAccountData, lamports: u64) -> (r:
    Result<(), ProgramError>)
    ensures
        match spec_move(old(from)@, old(to)@, lamports) {
            Ok((f2, t2)) => r is Ok && final(from)@ == f2 && final(to)@ == t2,
            Err(e) => r == (Result::<(), ProgramError>::Err(e)) && final(from)@ == old(from)@
                && final(to)@ == old(to)@,
        },
{
    if from.lamports < lamports {
        return Err(ProgramError::InsufficientFunds);
    }
    if lamports > u64::MAX - to.lamports {
        return Err(ProgramError::ArithmeticOverflow);
    }
    from.lamports = from.lamports - lamports;
    to.lamports = to.lamports + lamports;
    Ok(())
}

/// A fresh zeroed data buffer of `n` bytes.
fn zero_vec(n: usize) -> (r: Vec<u8>)
    ensures
        r@ == zero_bytes(n as int),
{
    let mut r: Vec<u8> = Vec::new();
    push_zeros(&mut r, n);
    proof {
        assert(r@ =~= zero_bytes(n as int));
    }
    r
}

/// Run the seeded checks of `spec_seed_check` on real values.
fn seed_check(
    metas: &Vec<BorshAccountMeta>,
    base: &Pubkey,
    seed: &str,
    owner: &Pubkey,
    account: &Pubkey,
) -> (r: Option<ProgramError>)
    ensures
        r == spec_seed_check(metas@, *base, seed@, *owner, *account),
{
    if metas.len() <= 1 {
        return Some(ProgramError::NotEnoughAccountKeys);
    }
    if !metas[1].is_signer {
        return Some(ProgramError::MissingRequiredSignature);
    }
    if metas[1].pubkey != *base {
        return Some(ProgramError::MissingRequiredSignature);
    }
    match derive(base, seed, owner) {
        Err(e) => Some(e),
        Ok(derived) => {
            let account_bytes = account.to_bytes();
            if !crate::account::bytes_eq(&account_bytes, &derived) {
                Some(ProgramError::InvalidSeeds)
            } else {
                None
            }
        },
    }
}

/// Derive the seeded address, matching `spec_derive`.
fn derive(base: &Pubkey, seed: &str, owner: &Pubkey) -> (r: Result<Vec<u8>, ProgramError>)
    ensures
        match spec_derive(*base, seed@, *owner) {
            Ok(d) => r is Ok && r.unwrap()@ == d,
            Err(e) => r == (Result::<Vec<u8>, ProgramError>::Err(e)),
        },
{
    let base_bytes = base.to_bytes();
    let owner_bytes = owner.to_bytes();
    create_with_seed(&base_bytes, seed, &owner_bytes)
}

/// The in-process system program, with the log buffer its host reads.
pub struct DebugSystemProgram {
    pub logs: Vec<String>,
}

impl DebugSystemProgram {
    pub fn new() -> (r: DebugSystemProgram)
        ensures
            r.logs@ == Seq::<String>::empty(),
    {
        DebugSystemProgram { logs: Vec::new() }
    }

    pub fn clear_logs(&mut self)
        ensures
            final(self).logs@ == Seq::<String>::empty(),
    {
        self.logs.clear();
    }

    pub fn logs(&self) -> (r: &Vec<String>)
        ensures
            r@ == self.logs@,
    {
        &self.logs
    }

    /// Log a message the way an on-chain program would.
    pub fn msg_str(&mut self, msg: &str)
        ensures
            final(self).logs@.len() == old(self).logs@.len() + 1,
            final(self).logs@.subrange(0, old(self).logs@.len() as int) == old(self).logs@,
            final(self).logs@.last()@ == spec_program_log(msg@),
    {
        self.logs.push(program_log(msg));
        proof {
            assert(self.logs@.subrange(0, old(self).logs@.len() as int) =~= old(self).logs@);
        }
    }

    /// Apply one already-decoded instruction; the result and the final
    /// account map are exactly `spec_system_exec`.
    pub fn exec_instruction(
        &mut self,
        ix: SystemInstruction,
        account_metas: &Vec<BorshAccountMeta>,
        account_datas: &mut AccountMap,
    ) -> (r: Result<(), ProgramError>)
        ensures
            r == spec_system_exec(ix, account_metas@, old(account_datas)@).0,
            final(account_datas)@ == spec_system_exec(ix, account_metas@, old(account_datas)@).1,
            final(self).logs@.len() >= old(self).logs@.len(),
            final(self).logs@.subrange(0, old(self).logs@.len() as int) == old(self).logs@,
    {
        proof {
            assert(self.logs@.subrange(0, self.logs@.len() as int) =~= self.logs@);
        }
        match ix {
            SystemInstruction::CreateAccount { lamports, space, owner } => self.create_account(
                account_metas,
                account_datas,
                lamports,
                space,
                owner,
                None,
            ),
            SystemInstruction::CreateAccountWithSeed { base, seed, lamports, space, owner } => self
                .create_account(account_metas, account_datas, lamports, space, owner, Some((base, seed))),
            SystemInstruction::Assign { owner } => {
                let (pk, mut a) = match assert_account_meta(
                    account_metas,
                    account_datas,
                    0,
                    true,
                    true,
                ) {
                    Ok(x) => x,
                    Err(e) => {
                        return Err(e);
                    },
                };
                a.owner = owner;
                account_datas.insert(pk, a);
                Ok(())
            },
            SystemInstruction::Transfer { lamports } => {
                let (from_pk, mut from) = match assert_account_meta(
                    account_metas,
                    account_datas,
                    0,
                    true,
                    true,
                ) {
                    Ok(x) => x,
                    Err(e) => {
                        return Err(e);
                    },
                };
                let (to_pk, mut to) = match assert_account_meta(
                    account_metas,
                    account_datas,
                    1,
                    true,
                    false,
                ) {
                    Ok(x) => x,
                    Err(e) => {
                        return Err(e);
                    },
                };
                match checked_move(&mut from, &mut to, lamports) {
                    Ok(_) => {
                        account_datas.insert(from_pk, from);
                        account_datas.insert(to_pk, to);
                        Ok(())
                    },
                    Err(e) => Err(e),
                }
            },
            SystemInstruction::Allocate { space } => {
                let (pk, mut a) = match assert_account_meta(
                    account_metas,
                    account_datas,
                    0,
                    true,
                    true,
                ) {
                    Ok(x) => x,
                    Err(e) => {
                        return Err(e);
                    },
                };
                if a.data.len() > 0 {
                    return Err(ProgramError::AccountAlreadyInitialized);
                }
                if space > MAX_ACCOUNT_SIZE {
                    self.msg_space(space);
                    return Err(ProgramError::InvalidRealloc);
                }
                a.data = zero_vec(space as usize);
                account_datas.insert(pk, a);
                Ok(())
            },
            SystemInstruction::AllocateWithSeed { base, seed, space, owner } => {
                let (pk, mut a) = match assert_account_meta(
                    account_metas,
                    account_datas,
                    0,
                    true,
                    false,
                ) {
                    Ok(x) => x,
                    Err(e) => {
                        return Err(e);
                    },
                };
                if a.data.len() > 0 {
                    return Err(ProgramError::AccountAlreadyInitialized);
                }
                if space > MAX_ACCOUNT_SIZE {
                    self.msg_space(space);
                    return Err(ProgramError::InvalidRealloc);
                }
                match seed_check(account_metas, &base, seed.as_str(), &owner, &pk) {
                    Some(e) => Err(e),
                    None => {
                        a.data = zero_vec(space as usize);
                        account_datas.insert(pk, a);
                        Ok(())
                    },
                }
            },
            SystemInstruction::AssignWithSeed { base, seed, owner } => {
                let (pk, mut a) = match assert_account_meta(
                    account_metas,
                    account_datas,
                    0,
                    true,
                    false,
                ) {
                    Ok(x) => x,
                    Err(e) => {
                        return Err(e);
                    },
                };
                match seed_check(account_metas, &base, seed.as_str(), &owner, &pk) {
                    Some(e) => Err(e),
                    None => {
                        a.owner = owner;
                        account_datas.insert(pk, a);
                        Ok(())
                    },
                }
            },
            SystemInstruction::TransferWithSeed { lamports, from_seed, from_owner } => {
                let (from_pk, mut from) = match assert_account_meta(
                    account_metas,
                    account_datas,
                    0,
                    true,
                    false,
                ) {
                    Ok(x) => x,
                    Err(e) => {
                        return Err(e);
                    },
                };
                if account_metas.len() <= 1 {
                    return Err(ProgramError::NotEnoughAccountKeys);
                }
                if !account_metas[1].is_signer {
                    return Err(ProgramError::MissingRequiredSignature);
                }
                let derived = match derive(&account_metas[1].pubkey, from_seed.as_str(), &from_owner) {
                    Ok(d) => d,
                    Err(e) => {
                        return Err(e);
                    },
                };
                let from_bytes = from_pk.to_bytes();
                if !crate::account::bytes_eq(&from_bytes, &derived) {
                    self.msg_str("Provided new account and derived seed don't match");
                    return Err(ProgramError::InvalidSeeds);
                }
                let (to_pk, mut to) = match assert_account_meta(
                    account_metas,
                    account_datas,
                    2,
                    true,
                    false,
                ) {
                    Ok(x) => x,
                    Err(e) => {
                        return Err(e);
                    },
                };
                match checked_move(&mut from, &mut to, lamports) {
                    Ok(_) => {
                        account_datas.insert(from_pk, from);
                        account_datas.insert(to_pk, to);
                        Ok(())
                    },
                    Err(e) => Err(e),
                }
            },
        }
    }

    /// The shared create path of the plain and the seeded variant.
    fn create_account(
        &mut self,
        account_metas: &Vec<BorshAccountMeta>,
        account_datas: &mut AccountMap,
        lamports: u64,
        space: u64,
        owner: Pubkey,
        seed_info: Option<(Pubkey, String)>,
    ) -> (r: Result<(), ProgramError>)
        ensures
            ({
                let ghost_info = match seed_info {
                    Some((b, s)) => Some((b, s@)),
                    None => None,
                };
                let spec = spec_create_account(
                    account_metas@,
                    old(account_datas)@,
                    lamports,
                    space,
                    owner,
                    seed_info is Some,
                    ghost_info,
                );
                r == spec.0 && final(account_datas)@ == spec.1
            }),
            final(self).logs@.len() >= old(self).logs@.len(),
            final(self).logs@.subrange(0, old(self).logs@.len() as int) == old(self).logs@,
    {
        proof {
            assert(self.logs@.subrange(0, self.logs@.len() as int) =~= self.logs@);
        }
        let seeded = seed_info.is_some();
        let (funding_pk, mut funding) = match assert_account_meta(
            account_metas,
            account_datas,
            0,
            true,
            true,
        ) {
            Ok(x) => x,
            Err(e) => {
                return Err(e);
            },
        };
        let (new_pk, mut new) = match assert_account_meta(
            account_metas,
            account_datas,
            1,
            true,
            !seeded,
        ) {
            Ok(x) => x,
            Err(e) => {
                return Err(e);
            },
        };
        if let Some((base, seed)) = seed_info {
            if base != funding_pk {
                if account_metas.len() <= 2 {
                    return Err(ProgramError::NotEnoughAccountKeys);
                }
                if !account_metas[2].is_signer {
                    return Err(ProgramError::MissingRequiredSignature);
                }
            }
            let derived = match derive(&base, seed.as_str(), &owner) {
                Ok(d) => d,
                Err(e) => {
                    return Err(e);
                },
            };
            let new_bytes = new_pk.to_bytes();
            if !crate::account::bytes_eq(&new_bytes, &derived) {
                self.msg_str("Provided new account and derived seed don't match");
                return Err(ProgramError::InvalidSeeds);
            }
        }
        if new.data.len() > 0 {
            return Err(ProgramError::AccountAlreadyInitialized);
        }
        if space > MAX_ACCOUNT_SIZE {
            self.msg_space(space);
            return Err(ProgramError::InvalidRealloc);
        }
        match checked_move(&mut funding, &mut new, lamports) {
            Ok(_) => {
                new.owner = owner;
                new.data = zero_vec(space as usize);
                account_datas.insert(funding_pk, funding);
                account_datas.insert(new_pk, new);
                Ok(())
            },
            Err(e) => Err(e),
        }
    }

    /// Log an oversized allocation request, `<space> > <cap>`.
    fn msg_space(&mut self, space: u64)
        ensures
            final(self).logs@.len() == old(self).logs@.len() + 1,
            final(self).logs@.subrange(0, old(self).logs@.len() as int) == old(self).logs@,
    {
        let line = crate::textutil::u64_to_string(space).concat(" > ").concat(
            crate::textutil::u64_to_string(MAX_ACCOUNT_SIZE).as_str(),
        );
        self.logs.push(program_log(line.as_str()));
        proof {
            assert(self.logs@.subrange(0, old(self).logs@.len() as int) =~= old(self).logs@);
        }
    }

    /// Decode and apply one instruction, as the program caller hands it in:
    /// exactly `spec_system_exec` of the instruction that opens the bytes,
    /// or the decode error, untouched accounts, when none does.
    pub fn exec(
        &mut self,
        instruction: Vec<u8>,
        account_metas: Vec<BorshAccountMeta>,
        account_datas: &mut AccountMap,
    ) -> (r: Result<(), ProgramError>)
        ensures
            final(self).logs@.len() >= old(self).logs@.len(),
            final(self).logs@.subrange(0, old(self).logs@.len() as int) == old(self).logs@,
            (exists|ix: SystemInstruction|
                #[trigger] spec_encodes_prefix(instruction@, ix) && r == spec_system_exec(
                    ix,
                    account_metas@,
                    old(account_datas)@,
                ).0 && final(account_datas)@ == spec_system_exec(
                    ix,
                    account_metas@,
                    old(account_datas)@,
                ).1) || (r == (Result::<(), ProgramError>::Err(
                ProgramError::InvalidInstructionData,
            )) && final(account_datas)@ == old(account_datas)@ && (forall|
                ix: SystemInstruction,
            |
                !spec_encodes_prefix(instruction@, ix))),
    {
        proof {
            assert(self.logs@.subrange(0, self.logs@.len() as int) =~= self.logs@);
        }
        match parse_system_instruction(&instruction) {
            Some(ix) => {
                let ghost gix = ix;
                let r = self.exec_instruction(ix, &account_metas, account_datas);
                proof {
                    assert(spec_encodes_prefix(instruction@, gix));
                }
                r
            },
            None => Err(ProgramError::InvalidInstructionData),
        }
    }
}

} // verus!
