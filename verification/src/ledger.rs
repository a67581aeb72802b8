//! The pure side of the ledger: its well-known pubkeys, synthesized
//! sysvar and program accounts, the rent-exemption formula, the blockhash
//! and log rules of the block file, and the record arithmetic and search
//! step of the indexed file. The files themselves are collaborators; they
//! see only values produced here.

use crate::account::{BokkenAccountData, Pubkey};
use crate::bytesutil::{push_bytes, push_u64_le, push_u8, zero_bytes};
use crate::encodings::{string_to_bytes, utf8_of};
use vstd::bytes::spec_u64_to_le_bytes;
use vstd::prelude::*;

verus! {

/// The placeholder lamport balance synthesized accounts carry.
pub const SYNTH_LAMPORTS: u64 = 0xf09f91bb;

/// The byte budget one block's log lines may occupy.
pub const DEFAULT_MAX_LOG_SIZE: usize = 50 * 1000;

/// The null pubkey the validator reserves (base58
/// `nu11111111111111111111111111111111111111111`).
pub fn pubkey_null() -> (r: Pubkey)
    ensures
        r == (Pubkey {
            w0: 0xc3f174d0d8eec10b,
            w1: 0xd828ca4b164cd437,
            w2: 0x1cb1408aa91bce4c,
            w3: 0x9c5a13,
        }),
{
    Pubkey { w0: 0xc3f174d0d8eec10b, w1: 0xd828ca4b164cd437, w2: 0x1cb1408aa91bce4c, w3: 0x9c5a13 }
}

/// The loader that owns debuggable program accounts (base58
/// `Debugab1eProgramLoader111111111111111111111`).
pub fn pubkey_debug_program_loader() -> (r: Pubkey)
    ensures
        r == (Pubkey {
            w0: 0xc5b4ac967c7c3d03,
            w1: 0x5de1d96b4339cc3e,
            w2: 0xace4896fa1a8aa49,
            w3: 0xe045dfe5bdc0,
        }),
{
    Pubkey {
        w0: 0xc5b4ac967c7c3d03,
        w1: 0x5de1d96b4339cc3e,
        w2: 0xace4896fa1a8aa49,
        w3: 0xe045dfe5bdc0,
    }
}

/// The clock sysvar's pubkey.
pub fn pubkey_clock() -> (r: Pubkey)
    ensures
        r == (Pubkey {
            w0: 0xc974c71817d5a706,
            w1: 0xb65e1d6998635628,
            w2: 0x5c6d4b9ba3b85e8b,
            w3: 0x215b5573,
        }),
{
    Pubkey { w0: 0xc974c71817d5a706, w1: 0xb65e1d6998635628, w2: 0x5c6d4b9ba3b85e8b, w3: 0x215b5573 }
}

/// The rent sysvar's pubkey.
pub fn pubkey_rent() -> (r: Pubkey)
    ensures
        r == (Pubkey {
            w0: 0x515c2c1917d5a706,
            w1: 0x7ff14a3d4cc98c21,
            w2: 0x44fda19b08eeda58,
            w3: 0x8ad9dbe3,
        }),
{
    Pubkey { w0: 0x515c2c1917d5a706, w1: 0x7ff14a3d4cc98c21, w2: 0x44fda19b08eeda58, w3: 0x8ad9dbe3 }
}

/// The sysvar owner pubkey (base58
/// `Sysvar1111111111111111111111111111111111111`).
pub fn pubkey_sysvar_owner() -> (r: Pubkey)
    ensures
        r == (Pubkey {
            w0: 0x29f7751817d5a706,
            w1: 0x2061218f40933dc7,
            w2: 0x288ce0768cd87e06,
            w3: 0x6094c17f,
        }),
{
    Pubkey {
        w0: 0x29f7751817d5a706,
        w1: 0x2061218f40933dc7,
        w2: 0x288ce0768cd87e06,
        w3: 0x6094c17f,
    }
}

/// The marker data of the account synthesized for a registered program id.
pub open spec fn spec_ghost_data() -> Seq<u8> {
    seq![
        0xf0u8, 0x9fu8, 0x91u8, 0xbbu8, 0xf0u8, 0x9fu8, 0x90u8, 0x9bu8, 0xf0u8, 0x9fu8, 0xa7u8,
        0x91u8, 0xe2u8, 0x80u8, 0x8du8, 0xf0u8, 0x9fu8, 0x92u8, 0xbbu8,
    ]
}

/// The account `read_account` reports for a registered program id: an
/// executable marker owned by the debug loader.
pub fn ghost_program_account() -> (r: BokkenAccountData)
    ensures
        r@.lamports == SYNTH_LAMPORTS,
        r@.data == spec_ghost_data(),
        r@.owner == (Pubkey {
            w0: 0xc5b4ac967c7c3d03,
            w1: 0x5de1d96b4339cc3e,
            w2: 0xace4896fa1a8aa49,
            w3: 0xe045dfe5bdc0,
        }),
        r@.executable,
        r@.rent_epoch == 0,
{
    let mut data: Vec<u8> = Vec::new();
    push_u8(&mut data, 0xf0);
    push_u8(&mut data, 0x9f);
    push_u8(&mut data, 0x91);
    push_u8(&mut data, 0xbb);
    push_u8(&mut data, 0xf0);
    push_u8(&mut data, 0x9f);
    push_u8(&mut data, 0x90);
    push_u8(&mut data, 0x9b);
    push_u8(&mut data, 0xf0);
    push_u8(&mut data, 0x9f);
    push_u8(&mut data, 0xa7);
    push_u8(&mut data, 0x91);
    push_u8(&mut data, 0xe2);
    push_u8(&mut data, 0x80);
    push_u8(&mut data, 0x8d);
    push_u8(&mut data, 0xf0);
    push_u8(&mut data, 0x9f);
    push_u8(&mut data, 0x92);
    push_u8(&mut data, 0xbb);
    proof {
        assert(data@ =~= spec_ghost_data());
    }
    BokkenAccountData {
        lamports: SYNTH_LAMPORTS,
        data,
        owner: pubkey_debug_program_loader(),
        executable: true,
        rent_epoch: 0,
    }
}

/// The 40-byte fixed-width clock record: slot, epoch start, epoch, leader
/// schedule epoch, unix timestamp, all little-endian (the timestamp in
/// two's complement).
pub open spec fn spec_clock_data(slot: u64, unix_timestamp: i64) -> Seq<u8> {
    spec_u64_to_le_bytes(slot) + zero_bytes(24) + spec_u64_to_le_bytes(unix_timestamp as u64)
}

/// The synthesized clock sysvar account.
pub fn clock_sysvar_account(slot: u64, unix_timestamp: i64) -> (r: BokkenAccountData)
    ensures
        r@.lamports == SYNTH_LAMPORTS,
        r@.data == spec_clock_data(slot, unix_timestamp),
        r@.owner == (Pubkey {
            w0: 0x29f7751817d5a706,
            w1: 0x2061218f40933dc7,
            w2: 0x288ce0768cd87e06,
            w3: 0x6094c17f,
        }),
        !r@.executable,
        r@.rent_epoch == 0,
{
    let mut data: Vec<u8> = Vec::new();
    push_u64_le(&mut data, slot);
    crate::bytesutil::push_zeros(&mut data, 24);
    push_u64_le(&mut data, unix_timestamp as u64);
    BokkenAccountData {
        lamports: SYNTH_LAMPORTS,
        data,
        owner: pubkey_sysvar_owner(),
        executable: false,
        rent_epoch: 0,
    }
}

/// The 17-byte fixed-width rent record: lamports per byte-year, the fixed
/// exemption threshold of two years in its floating-point bit pattern, and
/// a burn percentage of one hundred.
pub open spec fn spec_rent_data(lamports_per_byte_year: u64) -> Seq<u8> {
    spec_u64_to_le_bytes(lamports_per_byte_year) + seq![
        0u8, 0u8, 0u8, 0u8, 0u8, 0u8, 0u8, 0x40u8, 100u8,
    ]
}

/// The synthesized rent sysvar account.
pub fn rent_sysvar_account(lamports_per_byte_year: u64) -> (r: BokkenAccountData)
    ensures
        r@.lamports == SYNTH_LAMPORTS,
        r@.data == spec_rent_data(lamports_per_byte_year),
        r@.owner == (Pubkey {
            w0: 0x29f7751817d5a706,
            w1: 0x2061218f40933dc7,
            w2: 0x288ce0768cd87e06,
            w3: 0x6094c17f,
        }),
        !r@.executable,
        r@.rent_epoch == 0,
{
    let mut data: Vec<u8> = Vec::new();
    push_u64_le(&mut data, lamports_per_byte_year);
    push_u8(&mut data, 0);
    push_u8(&mut data, 0);
    push_u8(&mut data, 0);
    push_u8(&mut data, 0);
    push_u8(&mut data, 0);
    push_u8(&mut data, 0);
    push_u8(&mut data, 0);
    push_u8(&mut data, 0x40);
    push_u8(&mut data, 100);
    proof {
        assert(data@ =~= spec_rent_data(lamports_per_byte_year));
    }
    BokkenAccountData {
        lamports: SYNTH_LAMPORTS,
        data,
        owner: pubkey_sysvar_owner(),
        executable: false,
        rent_epoch: 0,
    }
}

/// The options a fresh ledger is initialized with.
pub struct BokkenLedgerInitConfig {
    pub initial_mint: Pubkey,
    pub initial_mint_lamports: u64,
}

/// The account a fresh ledger's initial mint starts with.
pub fn initial_mint_account(lamports: u64) -> (r: BokkenAccountData)
    ensures
        r@.lamports == lamports,
        r@.data == Seq::<u8>::empty(),
        r@.owner == Pubkey::spec_default(),
        !r@.executable,
        r@.rent_epoch == 0,
{
    BokkenAccountData {
        lamports,
        data: Vec::new(),
        owner: Pubkey::zeroed(),
        executable: false,
        rent_epoch: 0,
    }
}

/// What `save_account` writes: a zero-lamport account is stored as the
/// default-valued (absent) account.
pub fn account_to_store(data: &BokkenAccountData) -> (r: BokkenAccountData)
    ensures
        data@.lamports == 0 ==> r@ == crate::account::AccountView::spec_empty(),
        data@.lamports != 0 ==> r@ == data@,
{
    if data.lamports == 0 {
        BokkenAccountData::empty()
    } else {
        data.duplicate()
    }
}

/// The minimum balance exempting `data_len` bytes from rent: two years of
/// rent over the data plus the fixed record overhead.
pub fn calc_min_balance_for_rent_exemption(data_len: u64, rent_per_byte_year: u64) -> (r: u64)
    requires
        128 + data_len <= u64::MAX,
        (128 + data_len) * rent_per_byte_year * 2 <= u64::MAX,
    ensures
        r == (128 + data_len) * rent_per_byte_year * 2,
{
    let base: u64 = 128 + data_len;
    proof {
        assert(base * rent_per_byte_year <= base * rent_per_byte_year * 2) by (nonlinear_arith);
    }
    base * rent_per_byte_year * 2
}

/// The next block's synthesized hash: the slot, little-endian, in the
/// first eight of 32 bytes.
pub fn next_blockhash(slot: u64) -> (r: Vec<u8>)
    ensures
        r@.len() == 32,
        r@.subrange(0, 8) == spec_u64_to_le_bytes(slot),
        forall|k: int| 8 <= k < 32 ==> r@[k] == 0u8,
{
    let mut r: Vec<u8> = Vec::new();
    push_u64_le(&mut r, slot);
    crate::bytesutil::push_zeros(&mut r, 24);
    proof {
        vstd::bytes::lemma_auto_spec_u64_to_from_le_bytes();
        assert(r@.subrange(0, 8) =~= spec_u64_to_le_bytes(slot));
    }
    r
}

/// The position at which the byte budget cuts the log list off, walking
/// greedily from `i` with `total` bytes already spent: the list's length
/// when everything fits. Each kept line must leave room for its length
/// prefix and the truncation marker.
pub open spec fn spec_truncation_point(logs: Seq<Seq<char>>, i: int, total: int) -> int
    decreases logs.len() - i,
{
    if i < 0 || i >= logs.len() {
        logs.len() as int
    } else {
        let line = utf8_of(logs[i]).len() as int;
        if line > 50000 || total > 50000 - line || (50000 - line) - total < 17 {
            i
        } else {
            spec_truncation_point(logs, i + 1, total + line)
        }
    }
}

/// Cap a block's log lines at the byte budget: keep the greedy prefix up
/// to the truncation point and append one marker when anything is dropped.
pub fn truncate_logs(logs: Vec<String>) -> (r: Vec<String>)
    ensures
        ({
            let views = logs@.map(|k: int, l: String| l@);
            let cut = spec_truncation_point(views, 0, 0);
            if cut == logs@.len() {
                r@ == logs@
            } else {
                r@.len() == cut + 1 && (forall|k: int| 0 <= k < cut ==> r@[k] == logs@[k])
                    && r@.last()@ == "Log truncated"@
            }
        }),
{
    let ghost views = logs@.map(|k: int, l: String| l@);
    let marker = "Log truncated";
    proof {
        reveal_strlit("Log truncated");
    }
    let mut total: usize = 0;
    let mut out: Vec<String> = Vec::new();
    let mut i: usize = 0;
    let n = logs.len();
    while i < n
        invariant
            marker@ == "Log truncated"@,
            views == logs@.map(|k: int, l: String| l@),
            i <= n,
            n == logs@.len(),
            out@.len() == i as int,
            total <= DEFAULT_MAX_LOG_SIZE,
            forall|k: int| 0 <= k < i ==> out@[k] == logs@[k],
            spec_truncation_point(views, 0, 0) == spec_truncation_point(
                views,
                i as int,
                total as int,
            ),
        decreases n - i,
    {
        let line_bytes = string_to_bytes(logs[i].as_str());
        let line_len = line_bytes.len();
        proof {
            assert(views[i as int] == logs@[i as int]@);
            assert(line_bytes@.len() == utf8_of(views[i as int]).len());
        }
        if line_len > DEFAULT_MAX_LOG_SIZE || total > DEFAULT_MAX_LOG_SIZE - line_len || (
        DEFAULT_MAX_LOG_SIZE - line_len) - total < 4 + 13 {
            proof {
                assert(spec_truncation_point(views, i as int, total as int) == i);
            }
            let m = String::from_str(marker);
            out.push(m);
            proof {
                assert(forall|k: int| 0 <= k < out@.len() - 1 ==> out@[k] == logs@[k]);
                assert(out@.last()@ == "Log truncated"@);
            }
            return out;
        }
        total = total + line_len;
        out.push(logs[i].clone());
        proof {
            assert(out@[i as int] == logs@[i as int]);
        }
        i = i + 1;
    }
    proof {
        assert(spec_truncation_point(views, n as int, total as int) == n);
        assert(out@ =~= logs@);
    }
    out
}

/// Where entry `index` of an indexed file starts: past the header, each
/// record holding an optional separate identifier and the entry itself.
pub fn index_to_offset(
    header_size: u64,
    identifier_size: u64,
    entry_size: u64,
    identifier_is_separate: bool,
    index: u64,
) -> (r: u64)
    requires
        identifier_size + entry_size <= u64::MAX,
        index * (identifier_size * (if identifier_is_separate {
            1u64
        } else {
            0u64
        }) + entry_size) + header_size <= u64::MAX,
    ensures
        r == header_size + index * (identifier_size * (if identifier_is_separate {
            1u64
        } else {
            0u64
        }) + entry_size),
{
    let sep: u64 = if identifier_is_separate {
        1
    } else {
        0
    };
    proof {
        assert(identifier_size * 1 == identifier_size) by (nonlinear_arith);
        assert(identifier_size * 0 == 0) by (nonlinear_arith);
    }
    let record: u64 = identifier_size * sep + entry_size;
    header_size + index * record
}

/// One probe of the indexed file's binary search.
#[derive(Clone, Copy, PartialEq, Eq, Structural, Debug)]
pub enum IndexableFileSearchResult {
    Found(usize),
    NotFound(usize),
}

/// What one comparison at the midpoint does to the search bounds.
#[derive(Clone, Copy, PartialEq, Eq, Structural, Debug)]
pub enum SearchStep {
    Continue { left: usize, right: usize },
    Done { result: IndexableFileSearchResult },
}

/// The decision of one binary-search iteration, given how the identifier
/// at `mid` compared to the target (negative below, zero equal, positive
/// above).
pub fn binary_search_step(left: usize, right: usize, mid: usize, ordering: i8) -> (r: SearchStep)
    requires
        left <= mid < right,
    ensures
        ordering == 0 ==> r == (SearchStep::Done {
            result: IndexableFileSearchResult::Found(mid),
        }),
        ordering < 0 ==> r == (SearchStep::Continue { left: (mid + 1) as usize, right }),
        ordering > 0 ==> r == (SearchStep::Continue { left, right: mid }),
{
    if ordering == 0 {
        SearchStep::Done { result: IndexableFileSearchResult::Found(mid) }
    } else if ordering < 0 {
        SearchStep::Continue { left: mid + 1, right }
    } else {
        SearchStep::Continue { left, right: mid }
    }
}

} // verus!
