//! The packed account blob a program entrypoint consumes through a single
//! pointer. Layout, little-endian: a `u64` account count; per account meta,
//! either an 8-byte back-reference to the first occurrence of the same
//! pubkey, or a full record (0xFF marker, three flag bytes, `u32` original
//! data length, key, owner, `u64` lamports, `u64` data length, the data,
//! `MAX_PERMITTED_DATA_INCREASE` growth bytes, zero padding to the next
//! 8-byte boundary, `u64` rent epoch); then the instruction length, the
//! instruction bytes and the program id.

use crate::account::{
    pubkey_bytes, AccountMap, AccountView, BokkenAccountData, BorshAccountMeta, ProgramError,
    Pubkey,
};
use crate::bytesutil::{
    push_bytes, push_pubkey, push_u32_le, push_u64_le, push_u8, push_zeros, read_bytes,
    read_pubkey, read_u32_le, read_u64_le, read_u8, write_bytes, write_pubkey, write_u64_le,
    zero_bytes,
};
use vstd::bytes::{
    spec_u32_from_le_bytes, spec_u32_to_le_bytes, spec_u64_from_le_bytes, spec_u64_to_le_bytes,
};
use vstd::prelude::*;

verus! {

/// The most an account's data may grow beyond its original length during one
/// invocation.
pub const MAX_PERMITTED_DATA_INCREASE: usize = 10240;

/// Bytes of the fixed-size header that opens a full account record.
pub const ACCOUNT_HEADER_LEN: usize = 88;

/// Zero padding that follows the growth room, bringing the record back to an
/// 8-byte boundary.
pub open spec fn pad8(len: int) -> int {
    (8 - (len % 8)) % 8
}

/// Total bytes of a full record whose original data length is `orig_len`.
pub open spec fn record_span(orig_len: int) -> int {
    88 + orig_len + 10240 + pad8(orig_len) + 8
}

/// A pubkey read back from 32 bytes.
pub open spec fn pubkey_of_bytes(s: Seq<u8>) -> Pubkey {
    Pubkey {
        w0: spec_u64_from_le_bytes(s.subrange(0, 8)),
        w1: spec_u64_from_le_bytes(s.subrange(8, 16)),
        w2: spec_u64_from_le_bytes(s.subrange(16, 24)),
        w3: spec_u64_from_le_bytes(s.subrange(24, 32)),
    }
}

pub proof fn lemma_pubkey_bytes_inverse(p: Pubkey)
    ensures
        pubkey_bytes(p).len() == 32,
        pubkey_of_bytes(pubkey_bytes(p)) == p,
{
    vstd::bytes::lemma_auto_spec_u64_to_from_le_bytes();
    assert(pubkey_bytes(p).subrange(0, 8) =~= spec_u64_to_le_bytes(p.w0));
    assert(pubkey_bytes(p).subrange(8, 16) =~= spec_u64_to_le_bytes(p.w1));
    assert(pubkey_bytes(p).subrange(16, 24) =~= spec_u64_to_le_bytes(p.w2));
    assert(pubkey_bytes(p).subrange(24, 32) =~= spec_u64_to_le_bytes(p.w3));
}

/// The original data length stored in the record header at `off`.
pub open spec fn record_orig_len(b: Seq<u8>, off: int) -> int {
    spec_u32_from_le_bytes(b.subrange(off + 4, off + 8)) as int
}

/// The current data length stored in the record header at `off`.
pub open spec fn record_data_len(b: Seq<u8>, off: int) -> int {
    spec_u64_from_le_bytes(b.subrange(off + 80, off + 88)) as int
}

/// A full record for `pk` is laid out correctly at `off`.
pub open spec fn record_wf(b: Seq<u8>, off: int, pk: Pubkey) -> bool {
    &&& 0 <= off
    &&& off + record_span(record_orig_len(b, off)) <= b.len()
    &&& b[off] == 0xffu8
    &&& b.subrange(off + 8, off + 40) == pubkey_bytes(pk)
    &&& record_data_len(b, off) <= record_orig_len(b, off) + 10240
}

pub open spec fn record_is_signer(b: Seq<u8>, off: int) -> bool {
    b[off + 1] != 0
}

pub open spec fn record_writable_flag(b: Seq<u8>, off: int) -> bool {
    b[off + 2] != 0
}

pub open spec fn record_executable(b: Seq<u8>, off: int) -> bool {
    b[off + 3] != 0
}

/// The account value a record at `off` currently holds.
pub open spec fn record_view(b: Seq<u8>, off: int) -> AccountView {
    let orig = record_orig_len(b, off);
    AccountView {
        lamports: spec_u64_from_le_bytes(b.subrange(off + 72, off + 80)),
        data: b.subrange(off + 88, off + 88 + record_data_len(b, off)),
        owner: pubkey_of_bytes(b.subrange(off + 40, off + 72)),
        executable: record_executable(b, off),
        rent_epoch: spec_u64_from_le_bytes(
            b.subrange(off + 88 + orig + 10240 + pad8(orig), off + 88 + orig + 10240 + pad8(orig)
                + 8),
        ),
    }
}

pub open spec fn bool_byte(x: bool) -> u8 {
    if x {
        1u8
    } else {
        0u8
    }
}

/// The bytes of a full record for meta `m` holding account value `a`.
pub open spec fn spec_record_bytes(m: BorshAccountMeta, a: AccountView) -> Seq<u8> {
    seq![0xffu8, bool_byte(m.is_signer), bool_byte(m.is_writable), bool_byte(a.executable)]
        + spec_u32_to_le_bytes(a.data.len() as u32) + pubkey_bytes(m.pubkey) + pubkey_bytes(a.owner)
        + spec_u64_to_le_bytes(a.lamports) + spec_u64_to_le_bytes(a.data.len() as u64) + a.data
        + zero_bytes(10240) + zero_bytes(pad8(a.data.len() as int)) + spec_u64_to_le_bytes(
        a.rent_epoch,
    )
}

/// A record embedded at `off` with exactly the bytes `spec_record_bytes`
/// parses back to the meta's flags and the account's value.
pub proof fn lemma_record_bytes_parse(b: Seq<u8>, off: int, m: BorshAccountMeta, a: AccountView)
    requires
        0 <= off,
        a.data.len() <= 0xffff_ffff,
        off + record_span(a.data.len() as int) <= b.len(),
        b.subrange(off, off + record_span(a.data.len() as int)) == spec_record_bytes(m, a),
    ensures
        record_orig_len(b, off) == a.data.len(),
        record_wf(b, off, m.pubkey),
        record_is_signer(b, off) == m.is_signer,
        record_writable_flag(b, off) == m.is_writable,
        record_view(b, off) == a,
{
    vstd::bytes::lemma_auto_spec_u64_to_from_le_bytes();
    vstd::bytes::lemma_auto_spec_u32_to_from_le_bytes();
    lemma_pubkey_bytes_inverse(m.pubkey);
    lemma_pubkey_bytes_inverse(a.owner);
    let r = spec_record_bytes(m, a);
    let len = a.data.len() as int;
    let span = record_span(len);
    let sub = b.subrange(off, off + span);
    assert(r.len() == span);
    lemma_sub_sub(b, off, span, 4, 8);
    assert(sub.subrange(4, 8) =~= spec_u32_to_le_bytes(a.data.len() as u32));
    assert(record_orig_len(b, off) == a.data.len());
    lemma_sub_sub(b, off, span, 80, 88);
    assert(sub.subrange(80, 88) =~= spec_u64_to_le_bytes(a.data.len() as u64));
    assert(record_data_len(b, off) == a.data.len());
    lemma_sub_sub(b, off, span, 8, 40);
    assert(sub.subrange(8, 40) =~= pubkey_bytes(m.pubkey));
    assert(b[off] == sub[0]);
    assert(record_wf(b, off, m.pubkey));
    assert(b[off + 1] == sub[1] && b[off + 2] == sub[2] && b[off + 3] == sub[3]);
    assert(record_is_signer(b, off) == m.is_signer);
    assert(record_writable_flag(b, off) == m.is_writable);
    assert(record_executable(b, off) == a.executable);
    lemma_sub_sub(b, off, span, 40, 72);
    assert(sub.subrange(40, 72) =~= pubkey_bytes(a.owner));
    lemma_sub_sub(b, off, span, 72, 80);
    assert(sub.subrange(72, 80) =~= spec_u64_to_le_bytes(a.lamports));
    lemma_sub_sub(b, off, span, 88, 88 + len);
    assert(sub.subrange(88, 88 + len) =~= a.data);
    lemma_sub_sub(b, off, span, 88 + len + 10240 + pad8(len), 88 + len + 10240 + pad8(len) + 8);
    assert(sub.subrange(88 + len + 10240 + pad8(len), 88 + len + 10240 + pad8(len) + 8)
        =~= spec_u64_to_le_bytes(a.rent_epoch));
    assert(record_view(b, off) == a);
}

/// Relate a subrange of `b` to the same window inside a wider subrange.
pub proof fn lemma_sub_sub(b: Seq<u8>, off: int, span: int, x: int, y: int)
    requires
        0 <= off,
        0 <= x <= y <= span,
        off + span <= b.len(),
    ensures
        b.subrange(off + x, off + y) == b.subrange(off, off + span).subrange(x, y),
{
    assert(b.subrange(off + x, off + y) =~= b.subrange(off, off + span).subrange(x, y));
}

/// A well-formed record is unaffected by changes outside its span.
pub proof fn lemma_record_frame(b1: Seq<u8>, b2: Seq<u8>, off: int, pk: Pubkey)
    requires
        record_wf(b1, off, pk),
        b2.len() >= b1.len(),
        forall|k: int| off <= k < off + record_span(record_orig_len(b1, off)) ==> b2[k] == b1[k],
    ensures
        record_orig_len(b2, off) == record_orig_len(b1, off),
        record_data_len(b2, off) == record_data_len(b1, off),
        record_wf(b2, off, pk),
        record_is_signer(b2, off) == record_is_signer(b1, off),
        record_writable_flag(b2, off) == record_writable_flag(b1, off),
        record_view(b2, off) == record_view(b1, off),
{
    let orig = record_orig_len(b1, off);
    assert(b2.subrange(off + 4, off + 8) =~= b1.subrange(off + 4, off + 8));
    assert(b2.subrange(off + 80, off + 88) =~= b1.subrange(off + 80, off + 88));
    assert(b2.subrange(off + 8, off + 40) =~= b1.subrange(off + 8, off + 40));
    assert(b2.subrange(off + 40, off + 72) =~= b1.subrange(off + 40, off + 72));
    assert(b2.subrange(off + 72, off + 80) =~= b1.subrange(off + 72, off + 80));
    assert(b2.subrange(off + 88, off + 88 + record_data_len(b1, off)) =~= b1.subrange(
        off + 88,
        off + 88 + record_data_len(b1, off),
    ));
    assert(b2.subrange(off + 88 + orig + 10240 + pad8(orig), off + 88 + orig + 10240 + pad8(orig)
        + 8) =~= b1.subrange(
        off + 88 + orig + 10240 + pad8(orig),
        off + 88 + orig + 10240 + pad8(orig) + 8,
    ));
    assert(record_view(b2, off) == record_view(b1, off));
}



/// The pubkeys of a meta list, in order.
pub open spec fn spec_meta_keys(metas: Seq<BorshAccountMeta>) -> Seq<Pubkey> {
    metas.map(|i: int, m: BorshAccountMeta| m.pubkey)
}

/// The first position of `pk` in `keys` (meaningful when `keys` contains it).
pub open spec fn first_index_of(keys: Seq<Pubkey>, pk: Pubkey) -> int
    decreases keys.len(),
{
    if keys.len() == 0 {
        0
    } else if keys[0] == pk {
        0
    } else {
        1 + first_index_of(keys.skip(1), pk)
    }
}

pub proof fn lemma_first_index(keys: Seq<Pubkey>, pk: Pubkey)
    requires
        keys.contains(pk),
    ensures
        0 <= first_index_of(keys, pk) < keys.len(),
        keys[first_index_of(keys, pk)] == pk,
        forall|k: int| 0 <= k < first_index_of(keys, pk) ==> keys[k] != pk,
    decreases keys.len(),
{
    if keys[0] == pk {
    } else {
        let w = choose|w: int| 0 <= w < keys.len() && keys[w] == pk;
        assert(keys.skip(1)[w - 1] == pk);
        assert(keys.skip(1).contains(pk));
        lemma_first_index(keys.skip(1), pk);
        let fi = first_index_of(keys.skip(1), pk);
        assert(keys[1 + fi] == keys.skip(1)[fi]);
        assert forall|k: int| 0 <= k < 1 + fi implies keys[k] != pk by {
            if k > 0 {
                assert(keys[k] == keys.skip(1)[k - 1]);
            }
        }
    }
}

/// `first_index_of` is exactly the least position holding `pk`.
pub proof fn lemma_first_index_is(keys: Seq<Pubkey>, pk: Pubkey, i: int)
    requires
        0 <= i < keys.len(),
        keys[i] == pk,
        forall|k: int| 0 <= k < i ==> keys[k] != pk,
    ensures
        first_index_of(keys, pk) == i,
{
    assert(keys.contains(pk));
    lemma_first_index(keys, pk);
    let fi = first_index_of(keys, pk);
    if fi < i {
        assert(keys[fi] != pk);
    }
    if fi > i {
        assert(keys[i] != pk);
    }
}

/// The blob entry for meta `i`: an 8-byte back-reference when the pubkey
/// appeared earlier, else a full record.
pub open spec fn spec_entry_bytes(
    metas: Seq<BorshAccountMeta>,
    datas: Map<Pubkey, AccountView>,
    i: int,
) -> Seq<u8> {
    let fi = first_index_of(spec_meta_keys(metas), metas[i].pubkey);
    if fi < i {
        spec_u64_to_le_bytes(fi as u64)
    } else {
        spec_record_bytes(metas[i], datas[metas[i].pubkey])
    }
}

/// The concatenated entries for the first `n` metas.
pub open spec fn spec_entries_bytes(
    metas: Seq<BorshAccountMeta>,
    datas: Map<Pubkey, AccountView>,
    n: int,
) -> Seq<u8>
    decreases n,
{
    if n <= 0 {
        Seq::empty()
    } else {
        spec_entries_bytes(metas, datas, n - 1) + spec_entry_bytes(metas, datas, n - 1)
    }
}

/// Where the entry for meta `i` starts inside the whole blob.
pub open spec fn spec_entry_offset(
    metas: Seq<BorshAccountMeta>,
    datas: Map<Pubkey, AccountView>,
    i: int,
) -> int {
    8 + spec_entries_bytes(metas, datas, i).len() as int
}

/// The whole blob: count, entries, instruction length, instruction bytes,
/// program id.
pub open spec fn spec_blob_bytes(
    program_id: Pubkey,
    instruction: Seq<u8>,
    metas: Seq<BorshAccountMeta>,
    datas: Map<Pubkey, AccountView>,
) -> Seq<u8> {
    spec_u64_to_le_bytes(metas.len() as u64) + spec_entries_bytes(metas, datas, metas.len() as int)
        + spec_u64_to_le_bytes(instruction.len() as u64) + instruction + pubkey_bytes(program_id)
}

/// Each entry sits unchanged inside any longer entry concatenation.
pub proof fn lemma_entries_prefix(
    metas: Seq<BorshAccountMeta>,
    datas: Map<Pubkey, AccountView>,
    i: int,
    n: int,
)
    requires
        0 <= i < n,
    ensures
        spec_entries_bytes(metas, datas, i).len() as int + spec_entry_bytes(metas, datas, i).len()
            <= spec_entries_bytes(metas, datas, n).len(),
        spec_entries_bytes(metas, datas, n).subrange(
            spec_entries_bytes(metas, datas, i).len() as int,
            spec_entries_bytes(metas, datas, i).len() as int + spec_entry_bytes(
                metas,
                datas,
                i,
            ).len() as int,
        ) == spec_entry_bytes(metas, datas, i),
    decreases n,
{
    let lo = spec_entries_bytes(metas, datas, i).len() as int;
    let e = spec_entry_bytes(metas, datas, i);
    if n == i + 1 {
        assert(spec_entries_bytes(metas, datas, n) == spec_entries_bytes(metas, datas, i) + e);
        assert(spec_entries_bytes(metas, datas, n).subrange(lo, lo + e.len()) =~= e);
    } else {
        lemma_entries_prefix(metas, datas, i, n - 1);
        assert(spec_entries_bytes(metas, datas, n) == spec_entries_bytes(metas, datas, n - 1)
            + spec_entry_bytes(metas, datas, n - 1));
        assert(spec_entries_bytes(metas, datas, n).subrange(lo, lo + e.len()) =~= spec_entries_bytes(
            metas,
            datas,
            n - 1,
        ).subrange(lo, lo + e.len()));
    }
}

/// A meta whose pubkey first appeared at `j < i` is encoded as the 8-byte
/// little-endian back-reference `j`.
pub proof fn lemma_duplicate_back_reference(
    program_id: Pubkey,
    instruction: Seq<u8>,
    metas: Seq<BorshAccountMeta>,
    datas: Map<Pubkey, AccountView>,
    i: int,
)
    requires
        0 <= i < metas.len(),
        first_index_of(spec_meta_keys(metas), metas[i].pubkey) < i,
    ensures
        spec_entry_offset(metas, datas, i) + 8 <= spec_blob_bytes(
            program_id,
            instruction,
            metas,
            datas,
        ).len(),
        spec_blob_bytes(program_id, instruction, metas, datas).subrange(
            spec_entry_offset(metas, datas, i),
            spec_entry_offset(metas, datas, i) + 8,
        ) == spec_u64_to_le_bytes(
            first_index_of(spec_meta_keys(metas), metas[i].pubkey) as u64,
        ),
{
    vstd::bytes::lemma_auto_spec_u64_to_from_le_bytes();
    let b = spec_blob_bytes(program_id, instruction, metas, datas);
    let e = spec_entry_bytes(metas, datas, i);
    let lo = spec_entries_bytes(metas, datas, i).len() as int;
    assert(e == spec_u64_to_le_bytes(
        first_index_of(spec_meta_keys(metas), metas[i].pubkey) as u64,
    ));
    lemma_entries_prefix(metas, datas, i, metas.len() as int);
    let all = spec_entries_bytes(metas, datas, metas.len() as int);
    assert(b.subrange(8 + lo, 8 + lo + 8) =~= all.subrange(lo, lo + 8));
}

/// Only the first meta of each pubkey gets a full record: two full-record
/// entries never share a pubkey.
pub proof fn lemma_record_once(
    metas: Seq<BorshAccountMeta>,
    datas: Map<Pubkey, AccountView>,
    i: int,
    j: int,
)
    requires
        0 <= i < metas.len(),
        0 <= j < metas.len(),
        i != j,
        metas[i].pubkey == metas[j].pubkey,
        first_index_of(spec_meta_keys(metas), metas[i].pubkey) >= i,
    ensures
        first_index_of(spec_meta_keys(metas), metas[j].pubkey) < j,
{
    let keys = spec_meta_keys(metas);
    assert(keys[i] == metas[i].pubkey);
    assert(keys.contains(metas[i].pubkey));
    lemma_first_index(keys, metas[i].pubkey);
    let fi = first_index_of(keys, metas[i].pubkey);
    assert(fi <= i) by {
        if fi > i {
            assert(keys[i] != metas[i].pubkey);
        }
    }
    assert(fi == i);
    assert(keys[j] == metas[j].pubkey);
    if j < i {
        assert(keys[j] != metas[i].pubkey);
        assert(false);
    }
    assert(first_index_of(keys, metas[j].pubkey) == fi);
}

/// The packed account blob plus its side index, as the child process holds
/// it for one invocation.
pub struct SolanaAccountsBlob {
    pub bytes: Vec<u8>,
    /// One entry per distinct meta pubkey, in first-occurrence order, with
    /// the byte offset of its full record.
    pub account_offsets: Vec<(Pubkey, usize)>,
    /// Accounts handed along for syscall-side lookup but not placed in the
    /// blob (sysvars and the like).
    pub non_entrypointed_account_infos: AccountMap,
}

impl SolanaAccountsBlob {
    /// Offsets name distinct pubkeys, every record is well formed, and the
    /// records stand in increasing, non-overlapping spans.
    pub open spec fn wf(&self) -> bool {
        let offs = self.account_offsets@;
        &&& forall|i: int, j: int| 0 <= i < j < offs.len() ==> offs[i].0 != offs[j].0
        &&& forall|i: int|
            0 <= i < offs.len() ==> record_wf(self.bytes@, #[trigger] offs[i].1 as int, offs[i].0)
        &&& forall|i: int, j: int|
            0 <= i < j < offs.len() ==> offs[i].1 + record_span(
                record_orig_len(self.bytes@, offs[i].1 as int),
            ) <= offs[j].1
    }

    pub open spec fn has_account(&self, pk: Pubkey) -> bool {
        exists|i: int| 0 <= i < self.account_offsets@.len() && self.account_offsets@[i].0 == pk
    }

    pub open spec fn spec_offset_of(&self, pk: Pubkey) -> int {
        self.account_offsets@[choose|i: int|
            0 <= i < self.account_offsets@.len() && self.account_offsets@[i].0 == pk].1 as int
    }

    /// The account value currently held for `pk`.
    pub open spec fn spec_account(&self, pk: Pubkey) -> AccountView {
        record_view(self.bytes@, self.spec_offset_of(pk))
    }

    /// All accounts the blob holds, as a map.
    pub open spec fn accounts(&self) -> Map<Pubkey, AccountView> {
        Map::new(|pk: Pubkey| self.has_account(pk), |pk: Pubkey| self.spec_account(pk))
    }

    /// The signer flag in the record header.
    pub open spec fn spec_is_signer(&self, pk: Pubkey) -> bool {
        self.has_account(pk) && record_is_signer(self.bytes@, self.spec_offset_of(pk))
    }

    /// Writable means: writable flag set and the account not executable.
    pub open spec fn spec_is_writable(&self, pk: Pubkey) -> bool {
        self.has_account(pk) && record_writable_flag(self.bytes@, self.spec_offset_of(pk))
            && !record_executable(self.bytes@, self.spec_offset_of(pk))
    }

    /// The original data length recorded for `pk`, which caps growth.
    pub open spec fn spec_original_len(&self, pk: Pubkey) -> int {
        record_orig_len(self.bytes@, self.spec_offset_of(pk))
    }

    /// Find the record offset for `pk`.
    fn find_offset(&self, pk: &Pubkey) -> (r: Option<usize>)
        requires
            self.wf(),
        ensures
            match r {
                Some(off) => self.has_account(*pk) && off as int == self.spec_offset_of(*pk)
                    && record_wf(self.bytes@, off as int, *pk),
                None => !self.has_account(*pk),
            },
    {
        let mut i: usize = 0;
        while i < self.account_offsets.len()
            invariant
                self.wf(),
                i <= self.account_offsets@.len(),
                forall|k: int| 0 <= k < i ==> self.account_offsets@[k].0 != *pk,
            decreases self.account_offsets@.len() - i,
        {
            if self.account_offsets[i].0 == *pk {
                let off = self.account_offsets[i].1;
                proof {
                    let j = choose|j: int|
                        0 <= j < self.account_offsets@.len() && self.account_offsets@[j].0 == *pk;
                    assert(j == i);
                }
                return Some(off);
            }
            i = i + 1;
        }
        None
    }

    /// Read the account stored for `pk` out of the blob, or `None` when the
    /// blob holds no record for it.
    pub fn get_account_data(&self, pk: &Pubkey) -> (r: Option<BokkenAccountData>)
        requires
            self.wf(),
        ensures
            match r {
                Some(a) => self.has_account(*pk) && a@ == self.spec_account(*pk),
                None => !self.has_account(*pk),
            },
    {
        let off = match self.find_offset(pk) {
            Some(off) => off,
            None => {
                return None;
            },
        };
        let blen: usize = self.bytes.len();
        proof {
            assert(record_wf(self.bytes@, off as int, *pk));
            assert(off + record_span(record_orig_len(self.bytes@, off as int)) <= blen);
        }
        let orig = read_u32_le(&self.bytes, off + 4) as usize;
        let dlen64 = read_u64_le(&self.bytes, off + 80);
        let dlen = dlen64 as usize;
        let pad: usize = (8 - (orig % 8)) % 8;
        let rent_off = off + 88 + orig + 10240 + pad;
        let lamports = read_u64_le(&self.bytes, off + 72);
        let owner = read_pubkey(&self.bytes, off + 40);
        let executable = read_u8(&self.bytes, off + 3) != 0;
        let data = read_bytes(&self.bytes, off + 88, dlen);
        let rent_epoch = read_u64_le(&self.bytes, rent_off);
        proof {
            lemma_pubkey_bytes_inverse(owner);
        }
        let a = BokkenAccountData { lamports, data, owner, executable, rent_epoch };
        proof {
            assert(pubkey_bytes(owner) == self.bytes@.subrange(off + 40, off + 72));
            assert(owner == pubkey_of_bytes(pubkey_bytes(owner)));
            assert(a@ == self.spec_account(*pk));
        }
        Some(a)
    }

    /// Whether `pk`'s record carries the signer flag.
    pub fn is_signer(&self, pk: &Pubkey) -> (r: bool)
        requires
            self.wf(),
        ensures
            r == self.spec_is_signer(*pk),
    {
        let blen: usize = self.bytes.len();
        match self.find_offset(pk) {
            Some(off) => {
                proof {
                    assert(off + record_span(record_orig_len(self.bytes@, off as int)) <= blen);
                }
                read_u8(&self.bytes, off + 1) != 0
            },
            None => false,
        }
    }

    /// Whether `pk` may be written: writable flag set and not executable.
    pub fn is_writable(&self, pk: &Pubkey) -> (r: bool)
        requires
            self.wf(),
        ensures
            r == self.spec_is_writable(*pk),
    {
        let blen: usize = self.bytes.len();
        match self.find_offset(pk) {
            Some(off) => {
                proof {
                    assert(off + record_span(record_orig_len(self.bytes@, off as int)) <= blen);
                }
                read_u8(&self.bytes, off + 2) != 0 && read_u8(&self.bytes, off + 3) == 0
            },
            None => false,
        }
    }

    /// The value `pk` would have after a successful `set_account_data` with
    /// `a`: data, lamports and owner from `a`; executable flag and rent epoch
    /// kept from the record.
    pub open spec fn spec_updated(&self, pk: Pubkey, a: AccountView) -> AccountView {
        AccountView {
            lamports: a.lamports,
            data: a.data,
            owner: a.owner,
            executable: self.spec_account(pk).executable,
            rent_epoch: self.spec_account(pk).rent_epoch,
        }
    }

    /// Write `account` into the record for `pk`. Succeeds exactly when the
    /// record exists and the new data fits under the growth cap.
    pub fn set_account_data(&mut self, pk: &Pubkey, account: &BokkenAccountData) -> (r: Result<
        (),
        ProgramError,
    >)
        requires
            old(self).wf(),
        ensures
            final(self).wf(),
            final(self).account_offsets == old(self).account_offsets,
            final(self).non_entrypointed_account_infos == old(self).non_entrypointed_account_infos,
            (r is Ok) <==> old(self).has_account(*pk) && account.data@.len() <= old(
                self,
            ).spec_original_len(*pk) + 10240,
            !old(self).has_account(*pk) ==> r == (Result::<(), ProgramError>::Err(
                ProgramError::UninitializedAccount,
            )),
            old(self).has_account(*pk) && account.data@.len() > old(self).spec_original_len(*pk)
                + 10240 ==> r == (Result::<(), ProgramError>::Err(ProgramError::InvalidRealloc)),
            (r is Err) ==> final(self).bytes == old(self).bytes,
            (r is Ok) ==> final(self).accounts() == old(self).accounts().insert(
                *pk,
                old(self).spec_updated(*pk, account@),
            ),
            forall|q: Pubkey| final(self).has_account(q) == old(self).has_account(q),
            forall|q: Pubkey| #[trigger] final(self).spec_is_signer(q) == old(self).spec_is_signer(q),
            forall|q: Pubkey|
                #[trigger] final(self).spec_is_writable(q) == old(self).spec_is_writable(q),
            forall|q: Pubkey|
                old(self).has_account(q) ==> #[trigger] final(self).spec_original_len(q) == old(
                    self,
                ).spec_original_len(q),
    {
        let off = match self.find_offset(pk) {
            Some(off) => off,
            None => {
                return Err(ProgramError::UninitializedAccount);
            },
        };
        let blen: usize = self.bytes.len();
        proof {
            assert(record_wf(self.bytes@, off as int, *pk));
            assert(off + record_span(record_orig_len(self.bytes@, off as int)) <= blen);
        }
        let orig = read_u32_le(&self.bytes, off + 4) as usize;
        if account.data.len() > orig + MAX_PERMITTED_DATA_INCREASE {
            return Err(ProgramError::InvalidRealloc);
        }
        let newlen = account.data.len();
        let ghost b0 = self.bytes@;
        let ghost offi = off as int;
        let ghost span = record_span(record_orig_len(b0, offi));
        write_u64_le(&mut self.bytes, off + 80, newlen as u64);
        let ghost b1 = self.bytes@;
        write_u64_le(&mut self.bytes, off + 72, account.lamports);
        let ghost b2 = self.bytes@;
        write_pubkey(&mut self.bytes, off + 40, &account.owner);
        let ghost b3 = self.bytes@;
        write_bytes(&mut self.bytes, off + 88, account.data.as_slice());
        proof {
            let b4 = self.bytes@;
            vstd::bytes::lemma_auto_spec_u64_to_from_le_bytes();
            lemma_pubkey_bytes_inverse(account.owner);
            let orig_i = record_orig_len(b0, offi);
            // every byte outside [off + 40, off + 88 + newlen) is unchanged
            assert forall|k: int|
                0 <= k < b4.len() && !(offi + 40 <= k < offi + 88 + newlen) implies b4[k]
                == b0[k] by {
                assert(b4.len() == b0.len());
                if k < offi + 40 {
                    assert(b1[k] == b0[k]);
                    assert(b2[k] == b1[k]);
                    assert(b3[k] == b2[k]);
                    assert(b4[k] == b3[k]);
                } else {
                    assert(b1[k] == b0[k]);
                    assert(b2[k] == b1[k]);
                    assert(b3[k] == b2[k]);
                    assert(b4[k] == b3[k]);
                }
            }
            // the header fields of this record now parse to the new values
            assert(b4.subrange(offi, offi + 4) =~= b0.subrange(offi, offi + 4));
            assert(b4.subrange(offi + 4, offi + 8) =~= b0.subrange(offi + 4, offi + 8));
            assert(b4.subrange(offi + 8, offi + 40) =~= b0.subrange(offi + 8, offi + 40));
            assert(record_orig_len(b4, offi) == orig_i);
            assert(b4.subrange(offi + 80, offi + 88) =~= b1.subrange(offi + 80, offi + 88)) by {
                assert forall|k: int| offi + 80 <= k < offi + 88 implies b4[k] == b1[k] by {
                    assert(b2[k] == b1[k]);
                    assert(b3[k] == b2[k]);
                    assert(b4[k] == b3[k]);
                }
            }
            assert(record_data_len(b4, offi) == newlen);
            assert(b4.subrange(offi + 72, offi + 80) =~= b2.subrange(offi + 72, offi + 80)) by {
                assert forall|k: int| offi + 72 <= k < offi + 80 implies b4[k] == b2[k] by {
                    assert(b3[k] == b2[k]);
                    assert(b4[k] == b3[k]);
                }
            }
            assert(record_view(b4, offi).lamports == account.lamports);
            assert(b4.subrange(offi + 40, offi + 72) =~= b3.subrange(offi + 40, offi + 72)) by {
                assert forall|k: int| offi + 40 <= k < offi + 72 implies b4[k] == b3[k] by {
                    assert(b4[k] == b3[k]);
                }
            }
            assert(record_view(b4, offi).owner == account.owner);
            assert(b4.subrange(offi + 88, offi + 88 + newlen) =~= account.data@);
            assert(b4[offi] == b0[offi] && b4[offi + 1] == b0[offi + 1] && b4[offi + 2] == b0[offi
                + 2] && b4[offi + 3] == b0[offi + 3]);
            let rent_lo = offi + 88 + orig_i + 10240 + pad8(orig_i);
            assert(b4.subrange(rent_lo, rent_lo + 8) =~= b0.subrange(rent_lo, rent_lo + 8)) by {
                assert(newlen <= orig_i + 10240);
                assert forall|k: int| rent_lo <= k < rent_lo + 8 implies b4[k] == b0[k] by {
                    assert(!(offi + 40 <= k < offi + 88 + newlen));
                }
            }
            assert(record_wf(b4, offi, *pk));
            assert(record_view(b4, offi) == old(self).spec_updated(*pk, account@));
            // every other record is untouched
            let offs = self.account_offsets@;
            assert forall|j: int|
                0 <= j < offs.len() && offs[j].0 != *pk implies record_wf(
                b4,
                offs[j].1 as int,
                offs[j].0,
            ) && record_view(b4, offs[j].1 as int) == record_view(b0, offs[j].1 as int)
                && record_is_signer(b4, offs[j].1 as int) == record_is_signer(
                b0,
                offs[j].1 as int,
            ) && record_writable_flag(b4, offs[j].1 as int) == record_writable_flag(
                b0,
                offs[j].1 as int,
            ) && record_executable(b4, offs[j].1 as int) == record_executable(
                b0,
                offs[j].1 as int,
            ) && record_orig_len(b4, offs[j].1 as int) == record_orig_len(
                b0,
                offs[j].1 as int,
            ) by {
                let i = choose|i: int| 0 <= i < offs.len() && offs[i].0 == *pk;
                assert(offs[i].1 == off);
                let oj = offs[j].1 as int;
                let spanj = record_span(record_orig_len(b0, oj));
                assert forall|k: int| oj <= k < oj + spanj implies b4[k] == b0[k] by {
                    if j < i {
                        assert(oj + spanj <= offi);
                    } else {
                        assert(offi + span <= oj);
                        assert(offi + 88 + newlen <= offi + span);
                    }
                    assert(!(offi + 40 <= k < offi + 88 + newlen));
                }
                lemma_record_frame(b0, b4, oj, offs[j].0);
            }
            // the flag bytes of this record are untouched too
            assert(record_is_signer(b4, offi) == record_is_signer(b0, offi));
            assert(record_writable_flag(b4, offi) == record_writable_flag(b0, offi));
            assert(record_executable(b4, offi) == record_executable(b0, offi));
            assert forall|q: Pubkey| final(self).has_account(q) == old(self).has_account(q) by {}
            assert(final(self).accounts() =~= old(self).accounts().insert(
                *pk,
                old(self).spec_updated(*pk, account@),
            )) by {
                assert forall|q: Pubkey| #[trigger] final(self).has_account(q) implies final(self).spec_account(q) == old(self).accounts().insert(
                    *pk,
                    old(self).spec_updated(*pk, account@),
                )[q] by {
                    let iq = choose|i: int| 0 <= i < offs.len() && offs[i].0 == q;
                    if q == *pk {
                        assert(offs[iq].1 == off);
                    }
                }
            }
        }
        Ok(())
    }

    /// A copy of every account the blob holds, keyed by pubkey in
    /// first-occurrence order.
    pub fn get_account_datas(&self) -> (r: AccountMap)
        requires
            self.wf(),
        ensures
            r@ == self.accounts(),
            r.key_seq() == self.account_offsets@.map(
                |i: int, e: (Pubkey, usize)| e.0,
            ),
    {
        let mut r = AccountMap::new();
        let mut i: usize = 0;
        while i < self.account_offsets.len()
            invariant
                self.wf(),
                i <= self.account_offsets@.len(),
                r.key_seq() == self.account_offsets@.take(i as int).map(
                    |k: int, e: (Pubkey, usize)| e.0,
                ),
                forall|q: Pubkey|
                    #[trigger] r@.dom().contains(q) <==> exists|k: int|
                        0 <= k < i && self.account_offsets@[k].0 == q,
                forall|q: Pubkey|
                    r@.dom().contains(q) ==> #[trigger] r@[q] == self.spec_account(q),
            decreases self.account_offsets@.len() - i,
        {
            let pk = self.account_offsets[i].0;
            proof {
                assert(self.has_account(pk));
            }
            let a = match self.get_account_data(&pk) {
                Some(a) => a,
                None => {
                    proof {
                        assert(false);
                    }
                    BokkenAccountData::empty()
                },
            };
            r.insert(pk, a);
            proof {
                assert(r.key_seq() =~= self.account_offsets@.take(i + 1).map(
                    |k: int, e: (Pubkey, usize)| e.0,
                ));
            }
            i = i + 1;
        }
        proof {
            assert(r@ =~= self.accounts());
            assert(r.key_seq() =~= self.account_offsets@.map(|k: int, e: (Pubkey, usize)| e.0));
        }
        r
    }

    /// Look `pk` up among the side accounts first, then in the blob.
    pub fn get_sysvar_data(&self, pk: &Pubkey) -> (r: Option<BokkenAccountData>)
        requires
            self.wf(),
        ensures
            match r {
                Some(a) => if self.non_entrypointed_account_infos@.dom().contains(*pk) {
                    a@ == self.non_entrypointed_account_infos@[*pk]
                } else {
                    self.has_account(*pk) && a@ == self.spec_account(*pk)
                },
                None => !self.non_entrypointed_account_infos@.dom().contains(*pk)
                    && !self.has_account(*pk),
            },
    {
        match self.non_entrypointed_account_infos.get(pk) {
            Some(a) => Some(a.duplicate()),
            None => self.get_account_data(pk),
        }
    }
}



/// Extending a byte sequence leaves every earlier record intact.
pub proof fn lemma_records_frame_all(b1: Seq<u8>, b2: Seq<u8>, offs: Seq<(Pubkey, usize)>)
    requires
        b2.len() >= b1.len(),
        forall|k: int| 0 <= k < b1.len() ==> b2[k] == b1[k],
        forall|j: int| 0 <= j < offs.len() ==> record_wf(b1, #[trigger] offs[j].1 as int, offs[j].0),
    ensures
        forall|j: int|
            0 <= j < offs.len() ==> record_wf(b2, #[trigger] offs[j].1 as int, offs[j].0)
                && record_view(b2, offs[j].1 as int) == record_view(b1, offs[j].1 as int)
                && record_is_signer(b2, offs[j].1 as int) == record_is_signer(b1, offs[j].1 as int)
                && record_writable_flag(b2, offs[j].1 as int) == record_writable_flag(
                b1,
                offs[j].1 as int,
            ) && record_orig_len(b2, offs[j].1 as int) == record_orig_len(b1, offs[j].1 as int),
{
    assert forall|j: int|
        0 <= j < offs.len() implies record_wf(b2, #[trigger] offs[j].1 as int, offs[j].0)
        && record_view(b2, offs[j].1 as int) == record_view(b1, offs[j].1 as int) && record_is_signer(
        b2,
        offs[j].1 as int,
    ) == record_is_signer(b1, offs[j].1 as int) && record_writable_flag(b2, offs[j].1 as int)
        == record_writable_flag(b1, offs[j].1 as int) && record_orig_len(b2, offs[j].1 as int)
        == record_orig_len(b1, offs[j].1 as int) by {
        lemma_record_frame(b1, b2, offs[j].1 as int, offs[j].0);
    }
}

/// Taking one more element adds exactly that key to the prefix.
pub proof fn lemma_take_one_more(keys: Seq<Pubkey>, i: int)
    requires
        0 <= i < keys.len(),
    ensures
        forall|q: Pubkey|
            #[trigger] keys.take(i + 1).contains(q) <==> (keys.take(i).contains(q) || q
                == keys[i]),
        keys.take(i + 1).to_set() == keys.take(i).to_set().insert(keys[i]),
{
    assert forall|q: Pubkey| #[trigger]
        keys.take(i + 1).contains(q) <==> (keys.take(i).contains(q) || q == keys[i]) by {
        if keys.take(i + 1).contains(q) {
            let w = choose|w: int| 0 <= w < i + 1 && #[trigger] keys.take(i + 1)[w] == q;
            if w < i {
                assert(keys.take(i)[w] == q);
                assert(keys.take(i).contains(q));
            } else {
                assert(q == keys[i]);
            }
        }
        if keys.take(i).contains(q) {
            let w = choose|w: int| 0 <= w < i && #[trigger] keys.take(i)[w] == q;
            assert(keys.take(i + 1)[w] == q);
        }
        if q == keys[i] {
            assert(keys.take(i + 1)[i] == q);
        }
    }
    assert(keys.take(i + 1).to_set() =~= keys.take(i).to_set().insert(keys[i]));
}

/// Find `pk` among the first-occurrence entries gathered so far.
fn find_first(firsts: &Vec<(Pubkey, usize)>, pk: &Pubkey) -> (r: Option<usize>)
    ensures
        match r {
            Some(v) => exists|k: int|
                0 <= k < firsts@.len() && firsts@[k].0 == *pk && firsts@[k].1 == v,
            None => forall|k: int| 0 <= k < firsts@.len() ==> firsts@[k].0 != *pk,
        },
{
    let mut i: usize = 0;
    while i < firsts.len()
        invariant
            i <= firsts@.len(),
            forall|k: int| 0 <= k < i ==> firsts@[k].0 != *pk,
        decreases firsts@.len() - i,
    {
        if firsts[i].0 == *pk {
            return Some(firsts[i].1);
        }
        i = i + 1;
    }
    None
}

impl SolanaAccountsBlob {
    /// What `new` promises of the blob it builds from `(program_id,
    /// instruction, metas, datas)`.
    pub open spec fn built_from(
        &self,
        program_id: Pubkey,
        instruction: Seq<u8>,
        metas: Seq<BorshAccountMeta>,
        datas: Map<Pubkey, AccountView>,
    ) -> bool {
        let keys = spec_meta_keys(metas);
        &&& self.wf()
        &&& self.bytes@ == spec_blob_bytes(program_id, instruction, metas, datas)
        &&& forall|q: Pubkey| #[trigger] self.has_account(q) <==> keys.contains(q)
        &&& forall|q: Pubkey|
            self.has_account(q) ==> #[trigger] self.spec_account(q) == datas[q]
        &&& forall|q: Pubkey|
            self.has_account(q) ==> #[trigger] self.spec_original_len(q) == datas[q].data.len()
        &&& forall|q: Pubkey|
            self.has_account(q) ==> #[trigger] self.spec_is_signer(q) == metas[first_index_of(
                keys,
                q,
            )].is_signer
        &&& forall|q: Pubkey|
            self.has_account(q) ==> #[trigger] record_writable_flag(
                self.bytes@,
                self.spec_offset_of(q),
            ) == metas[first_index_of(keys, q)].is_writable
        &&& self.non_entrypointed_account_infos@ == datas.remove_keys(keys.to_set())
    }

    /// Build the blob for one invocation. Every meta pubkey must be present
    /// in `account_datas`; leftover accounts become the side map.
    #[verifier::rlimit(80)]
    pub fn new(
        program_id: Pubkey,
        instruction: Vec<u8>,
        account_metas: Vec<BorshAccountMeta>,
        account_datas: AccountMap,
    ) -> (r: SolanaAccountsBlob)
        requires
            forall|i: int|
                0 <= i < account_metas@.len() ==> account_datas@.dom().contains(
                    #[trigger] account_metas@[i].pubkey,
                ),
            forall|q: Pubkey|
                account_datas@.dom().contains(q) ==> #[trigger] account_datas@[q].data.len()
                    <= 0xffff_ffff,
        ensures
            r.built_from(program_id, instruction@, account_metas@, account_datas@),
    {
        let ghost metas = account_metas@;
        let ghost keys = spec_meta_keys(metas);
        let ghost datas0 = account_datas@;
        let mut bytes: Vec<u8> = Vec::new();
        push_u64_le(&mut bytes, account_metas.len() as u64);
        let mut offsets: Vec<(Pubkey, usize)> = Vec::new();
        let mut firsts: Vec<(Pubkey, usize)> = Vec::new();
        let mut datas = account_datas;
        let mut i: usize = 0;
        proof {
            assert(bytes@ =~= spec_u64_to_le_bytes(metas.len() as u64) + spec_entries_bytes(
                metas,
                datas0,
                0,
            ));
            assert(datas@ =~= datas0.remove_keys(keys.take(0).to_set()));
        }
        while i < account_metas.len()
            invariant
                metas == account_metas@,
                keys == spec_meta_keys(metas),
                i <= metas.len(),
                forall|k: int|
                    0 <= k < metas.len() ==> account_datas@.dom().contains(
                        #[trigger] metas[k].pubkey,
                    ),
                forall|q: Pubkey|
                    datas0.dom().contains(q) ==> #[trigger] datas0[q].data.len() <= 0xffff_ffff,
                datas0 == account_datas@,
                bytes@ == spec_u64_to_le_bytes(metas.len() as u64) + spec_entries_bytes(
                    metas,
                    datas0,
                    i as int,
                ),
                firsts@.len() == offsets@.len(),
                forall|k: int| 0 <= k < firsts@.len() ==> firsts@[k].0 == offsets@[k].0,
                forall|k1: int, k2: int|
                    0 <= k1 < k2 < offsets@.len() ==> offsets@[k1].0 != offsets@[k2].0,
                forall|q: Pubkey|
                    (exists|k: int| 0 <= k < firsts@.len() && firsts@[k].0 == q) <==> keys.take(
                        i as int,
                    ).contains(q),
                forall|k: int|
                    0 <= k < firsts@.len() ==> 0 <= firsts@[k].1 < i && (#[trigger] firsts@[k].1)
                        as int == first_index_of(keys, firsts@[k].0),
                forall|k: int|
                    0 <= k < offsets@.len() ==> record_wf(
                        bytes@,
                        #[trigger] offsets@[k].1 as int,
                        offsets@[k].0,
                    ),
                forall|k: int|
                    0 <= k < offsets@.len() ==> record_view(bytes@, #[trigger] offsets@[k].1 as int)
                        == datas0[offsets@[k].0],
                forall|k: int|
                    0 <= k < offsets@.len() ==> record_orig_len(
                        bytes@,
                        #[trigger] offsets@[k].1 as int,
                    ) == datas0[offsets@[k].0].data.len(),
                forall|k: int|
                    0 <= k < offsets@.len() ==> record_is_signer(
                        bytes@,
                        #[trigger] offsets@[k].1 as int,
                    ) == metas[first_index_of(keys, offsets@[k].0)].is_signer,
                forall|k: int|
                    0 <= k < offsets@.len() ==> record_writable_flag(
                        bytes@,
                        #[trigger] offsets@[k].1 as int,
                    ) == metas[first_index_of(keys, offsets@[k].0)].is_writable,
                forall|k1: int, k2: int|
                    0 <= k1 < k2 < offsets@.len() ==> offsets@[k1].1 + record_span(
                        record_orig_len(bytes@, offsets@[k1].1 as int),
                    ) <= offsets@[k2].1,
                datas@ == datas0.remove_keys(keys.take(i as int).to_set()),
            decreases metas.len() - i,
        {
            let meta = account_metas[i];
            proof {
                assert(keys[i as int] == meta.pubkey);
            }
            let ghost b_pre = bytes@;
            match find_first(&firsts, &meta.pubkey) {
                Some(fi) => {
                    proof {
                        let k = choose|k: int|
                            0 <= k < firsts@.len() && firsts@[k].0 == meta.pubkey && firsts@[k].1
                                == fi;
                        assert(fi as int == first_index_of(keys, meta.pubkey));
                        assert(fi < i);
                    }
                    push_u64_le(&mut bytes, fi as u64);
                    proof {
                        assert(spec_entry_bytes(metas, datas0, i as int) == spec_u64_to_le_bytes(
                            fi as u64,
                        ));
                        assert(bytes@ =~= spec_u64_to_le_bytes(metas.len() as u64)
                            + spec_entries_bytes(metas, datas0, i + 1));
                        lemma_records_frame_all(b_pre, bytes@, offsets@);
                        lemma_take_one_more(keys, i as int);
                        assert(keys.take(i as int).contains(meta.pubkey)) by {
                            assert(keys.contains(meta.pubkey)) by {
                                assert(keys[i as int] == meta.pubkey);
                            }
                            lemma_first_index(keys, meta.pubkey);
                            let fx = first_index_of(keys, meta.pubkey);
                            assert(keys.take(i as int)[fx] == meta.pubkey);
                        }
                        assert(keys.take(i as int).to_set().insert(meta.pubkey) =~= keys.take(
                            i as int,
                        ).to_set());
                        assert(datas@ =~= datas0.remove_keys(keys.take(i + 1).to_set()));
                        assert forall|q: Pubkey| #![trigger keys.take(i + 1).contains(q)]
                            (exists|k: int| 0 <= k < firsts@.len() && firsts@[k].0 == q)
                                <==> keys.take(i + 1).contains(q) by {}
                    }
                },
                None => {
                    proof {
                        assert(!keys.take(i as int).contains(meta.pubkey));
                        assert forall|k: int| 0 <= k < i implies keys[k] != meta.pubkey by {
                            assert(keys.take(i as int)[k] == keys[k]);
                        }
                        lemma_first_index_is(keys, meta.pubkey, i as int);
                        assert(datas@.dom().contains(meta.pubkey)) by {
                            assert(datas0.dom().contains(meta.pubkey));
                            assert(!keys.take(i as int).to_set().contains(meta.pubkey));
                        }
                    }
                    let acct = match datas.remove(&meta.pubkey) {
                        Some(a) => a,
                        None => {
                            proof {
                                assert(false);
                            }
                            BokkenAccountData::empty()
                        },
                    };
                    proof {
                        assert(acct@ == datas0[meta.pubkey]);
                        assert(datas0.dom().contains(meta.pubkey));
                        assert(datas0[meta.pubkey].data.len() <= 0xffff_ffff);
                        assert(acct.data@.len() <= 0xffff_ffff);
                    }
                    let off = bytes.len();
                    let ghost firsts_pre = firsts@;
                    let ghost offsets_pre = offsets@;
                    firsts.push((meta.pubkey, i));
                    offsets.push((meta.pubkey, off));
                    push_u8(&mut bytes, 0xff);
                    push_u8(&mut bytes, if meta.is_signer { 1 } else { 0 });
                    push_u8(&mut bytes, if meta.is_writable { 1 } else { 0 });
                    push_u8(&mut bytes, if acct.executable { 1 } else { 0 });
                    push_u32_le(&mut bytes, acct.data.len() as u32);
                    push_pubkey(&mut bytes, &meta.pubkey);
                    push_pubkey(&mut bytes, &acct.owner);
                    push_u64_le(&mut bytes, acct.lamports);
                    push_u64_le(&mut bytes, acct.data.len() as u64);
                    push_bytes(&mut bytes, acct.data.as_slice());
                    push_zeros(&mut bytes, MAX_PERMITTED_DATA_INCREASE);
                    let pad: usize = (8 - acct.data.len() % 8) % 8;
                    push_zeros(&mut bytes, pad);
                    push_u64_le(&mut bytes, acct.rent_epoch);
                    proof {
                        let av = acct@;
                        let rec = spec_record_bytes(meta, av);
                        vstd::bytes::lemma_auto_spec_u64_to_from_le_bytes();
                        vstd::bytes::lemma_auto_spec_u32_to_from_le_bytes();
                        lemma_pubkey_bytes_inverse(meta.pubkey);
                        lemma_pubkey_bytes_inverse(av.owner);
                        assert(rec.len() == record_span(av.data.len() as int));
                        assert(bytes@ =~= b_pre + rec);
                        assert(bytes@.subrange(off as int, off + record_span(av.data.len() as int))
                            =~= rec);
                        lemma_record_bytes_parse(bytes@, off as int, meta, av);
                        assert(spec_entry_bytes(metas, datas0, i as int) == rec);
                        assert(bytes@ =~= spec_u64_to_le_bytes(metas.len() as u64)
                            + spec_entries_bytes(metas, datas0, i + 1));
                        lemma_records_frame_all(b_pre, bytes@, offsets_pre);
                        lemma_take_one_more(keys, i as int);
                        assert forall|q: Pubkey| #![trigger keys.take(i + 1).contains(q)]
                            (exists|k: int| 0 <= k < firsts@.len() && firsts@[k].0 == q)
                                <==> keys.take(i + 1).contains(q) by {
                            if q == meta.pubkey {
                                assert(firsts@[firsts@.len() - 1].0 == q);
                            } else {
                                if keys.take(i + 1).contains(q) {
                                    let k = choose|k: int|
                                        0 <= k < firsts_pre.len() && firsts_pre[k].0 == q;
                                    assert(firsts@[k].0 == q);
                                }
                                if exists|k: int| 0 <= k < firsts@.len() && firsts@[k].0 == q {
                                    let k = choose|k: int|
                                        0 <= k < firsts@.len() && firsts@[k].0 == q;
                                    assert(k < firsts@.len() - 1);
                                    assert(firsts_pre[k].0 == q);
                                }
                            }
                        }
                        assert(datas@ =~= datas0.remove_keys(keys.take(i + 1).to_set()));
                    }
                },
            }
            i = i + 1;
        }
        let ghost b_loop = bytes@;
        push_u64_le(&mut bytes, instruction.len() as u64);
        push_bytes(&mut bytes, instruction.as_slice());
        push_pubkey(&mut bytes, &program_id);
        let r = SolanaAccountsBlob {
            bytes,
            account_offsets: offsets,
            non_entrypointed_account_infos: datas,
        };
        proof {
            assert(keys.take(metas.len() as int) =~= keys);
            assert(r.bytes@ =~= spec_blob_bytes(program_id, instruction@, metas, datas0));
            let offs = r.account_offsets@;
            assert forall|k: int|
                0 <= k < offs.len() implies record_wf(
                r.bytes@,
                #[trigger] offs[k].1 as int,
                offs[k].0,
            ) && record_view(r.bytes@, offs[k].1 as int) == record_view(b_loop, offs[k].1 as int)
                && record_is_signer(r.bytes@, offs[k].1 as int) == record_is_signer(
                b_loop,
                offs[k].1 as int,
            ) && record_writable_flag(r.bytes@, offs[k].1 as int) == record_writable_flag(
                b_loop,
                offs[k].1 as int,
            ) && record_orig_len(r.bytes@, offs[k].1 as int) == record_orig_len(
                b_loop,
                offs[k].1 as int,
            ) by {
                lemma_record_frame(b_loop, r.bytes@, offs[k].1 as int, offs[k].0);
            }
            assert(r.wf());
            assert forall|q: Pubkey| #[trigger] r.has_account(q) <==> keys.contains(q) by {}
            assert forall|q: Pubkey| r.has_account(q) implies #[trigger] r.spec_account(q)
                == datas0[q] && #[trigger] r.spec_original_len(q) == datas0[q].data.len()
                && r.spec_is_signer(q) == metas[first_index_of(keys, q)].is_signer
                && record_writable_flag(r.bytes@, r.spec_offset_of(q)) == metas[first_index_of(
                keys,
                q,
            )].is_writable by {
                let k = choose|k: int| 0 <= k < offs.len() && offs[k].0 == q;
            }
        }
        r
    }
}


/// Blob round-trip: building a blob and reading every account back yields
/// the inputs, on all fields a record stores, whenever every meta pubkey is
/// present among the account inputs.
pub proof fn lemma_blob_round_trip(
    blob: SolanaAccountsBlob,
    program_id: Pubkey,
    instruction: Seq<u8>,
    metas: Seq<BorshAccountMeta>,
    datas: Map<Pubkey, AccountView>,
)
    requires
        blob.built_from(program_id, instruction, metas, datas),
    ensures
        forall|q: Pubkey|
            #[trigger] blob.accounts().dom().contains(q) <==> spec_meta_keys(metas).contains(q),
        forall|q: Pubkey|
            blob.accounts().dom().contains(q) ==> #[trigger] blob.accounts()[q] == datas[q],
{
}

/// Blob duplicate encoding: the entry for a meta whose pubkey first appeared
/// at `j < i` is the 8-byte little-endian back-reference `j`, and only the
/// first meta of each pubkey gets a full record.
pub proof fn lemma_blob_duplicate_encoding(
    blob: SolanaAccountsBlob,
    program_id: Pubkey,
    instruction: Seq<u8>,
    metas: Seq<BorshAccountMeta>,
    datas: Map<Pubkey, AccountView>,
    i: int,
)
    requires
        blob.built_from(program_id, instruction, metas, datas),
        0 <= i < metas.len(),
        first_index_of(spec_meta_keys(metas), metas[i].pubkey) < i,
    ensures
        blob.bytes@.subrange(
            spec_entry_offset(metas, datas, i),
            spec_entry_offset(metas, datas, i) + 8,
        ) == spec_u64_to_le_bytes(
            first_index_of(spec_meta_keys(metas), metas[i].pubkey) as u64,
        ),
        forall|j: int|
            0 <= j < metas.len() && j != i && metas[j].pubkey == metas[i].pubkey
                && first_index_of(spec_meta_keys(metas), metas[j].pubkey) >= j ==> j
                == first_index_of(spec_meta_keys(metas), metas[i].pubkey),
{
    lemma_duplicate_back_reference(program_id, instruction, metas, datas, i);
    assert forall|j: int|
        0 <= j < metas.len() && j != i && metas[j].pubkey == metas[i].pubkey && first_index_of(
            spec_meta_keys(metas),
            metas[j].pubkey,
        ) >= j implies j == first_index_of(spec_meta_keys(metas), metas[i].pubkey) by {
        let keys = spec_meta_keys(metas);
        assert(keys[j] == metas[j].pubkey);
        assert(keys.contains(metas[j].pubkey));
        lemma_first_index(keys, metas[j].pubkey);
        let fj = first_index_of(keys, metas[j].pubkey);
        if fj > j {
            assert(keys[j] != metas[j].pubkey);
        }
        assert(fj == j);
    }
}

} // verus!
