//! Accounts, account metas, and pubkeys: the data model every component
//! shares. A pubkey is 32 bytes, held as four little-endian 64-bit words so
//! that equality is plain field equality in both executable code and
//! contracts.

use vstd::bytes::{spec_u64_to_le_bytes, u64_from_le_bytes, u64_to_le_bytes};
use vstd::prelude::*;

verus! {

/// A 32-byte public key, stored as four 64-bit words in little-endian order.
#[derive(Clone, Copy, PartialEq, Eq, Structural, Debug, Hash)]
pub struct Pubkey {
    pub w0: u64,
    pub w1: u64,
    pub w2: u64,
    pub w3: u64,
}

/// The 32-byte little-endian form of a pubkey.
pub open spec fn pubkey_bytes(p: Pubkey) -> Seq<u8> {
    spec_u64_to_le_bytes(p.w0) + spec_u64_to_le_bytes(p.w1) + spec_u64_to_le_bytes(p.w2)
        + spec_u64_to_le_bytes(p.w3)
}

impl Pubkey {
    pub open spec fn spec_default() -> Pubkey {
        Pubkey { w0: 0, w1: 0, w2: 0, w3: 0 }
    }

    /// The all-zero pubkey: the system program's id on this platform.
    pub fn zeroed() -> (r: Pubkey)
        ensures
            r == Pubkey::spec_default(),
    {
        Pubkey { w0: 0, w1: 0, w2: 0, w3: 0 }
    }

    /// Serialize to the 32-byte wire form.
    pub fn to_bytes(&self) -> (r: Vec<u8>)
        ensures
            r@ == pubkey_bytes(*self),
            r@.len() == 32,
    {
        proof {
            vstd::bytes::lemma_auto_spec_u64_to_from_le_bytes();
        }
        let mut r = u64_to_le_bytes(self.w0);
        let mut b1 = u64_to_le_bytes(self.w1);
        let mut b2 = u64_to_le_bytes(self.w2);
        let mut b3 = u64_to_le_bytes(self.w3);
        r.append(&mut b1);
        r.append(&mut b2);
        r.append(&mut b3);
        r
    }

    /// Read a pubkey back from its 32-byte wire form.
    pub fn from_bytes(b: &[u8]) -> (r: Pubkey)
        requires
            b@.len() == 32,
        ensures
            pubkey_bytes(r) == b@,
    {
        proof {
            vstd::bytes::lemma_auto_spec_u64_to_from_le_bytes();
        }
        let w0 = u64_from_le_bytes(slice_subrange(b, 0, 8));
        let w1 = u64_from_le_bytes(slice_subrange(b, 8, 16));
        let w2 = u64_from_le_bytes(slice_subrange(b, 16, 24));
        let w3 = u64_from_le_bytes(slice_subrange(b, 24, 32));
        let r = Pubkey { w0, w1, w2, w3 };
        proof {
            assert(pubkey_bytes(r) =~= b@);
        }
        r
    }
}

/// Take `s[i..j]` as a new slice borrow.
pub fn slice_subrange<'a>(s: &'a [u8], i: usize, j: usize) -> (r: &'a [u8])
    requires
        i <= j <= s@.len(),
    ensures
        r@ == s@.subrange(i as int, j as int),
{
    &s[i..j]
}

/// The mathematical value of an account: what the contracts speak of.
pub ghost struct AccountView {
    pub lamports: u64,
    pub data: Seq<u8>,
    pub owner: Pubkey,
    pub executable: bool,
    pub rent_epoch: u64,
}

/// A Solana-style account record.
#[derive(Clone, Debug)]
pub struct BokkenAccountData {
    pub lamports: u64,
    pub data: Vec<u8>,
    pub owner: Pubkey,
    pub executable: bool,
    pub rent_epoch: u64,
}

impl View for BokkenAccountData {
    type V = AccountView;

    open spec fn view(&self) -> AccountView {
        AccountView {
            lamports: self.lamports,
            data: self.data@,
            owner: self.owner,
            executable: self.executable,
            rent_epoch: self.rent_epoch,
        }
    }
}

impl BokkenAccountData {
    /// The default-valued account, which the ledger treats as absent.
    pub fn empty() -> (r: BokkenAccountData)
        ensures
            r@ == AccountView::spec_empty(),
    {
        BokkenAccountData {
            lamports: 0,
            data: Vec::new(),
            owner: Pubkey::zeroed(),
            executable: false,
            rent_epoch: 0,
        }
    }

    /// A field-by-field copy whose relation to the source is known to the
    /// verifier, unlike the derived `Clone`.
    pub fn duplicate(&self) -> (r: BokkenAccountData)
        ensures
            r@ == self@,
    {
        let data = crate::bytesutil::read_bytes(&self.data, 0, self.data.len());
        proof {
            assert(data@ =~= self.data@);
        }
        BokkenAccountData {
            lamports: self.lamports,
            data,
            owner: self.owner,
            executable: self.executable,
            rent_epoch: self.rent_epoch,
        }
    }

    /// Move `amount` lamports from this account to `to`; fails with
    /// insufficient funds when the balance does not cover the amount.
    pub fn move_lamports(&mut self, to: &mut BokkenAccountData, amount: u64) -> (r: Result<
        (),
        ProgramError,
    >)
        requires
            old(to).lamports + amount <= u64::MAX,
        ensures
            (r is Ok) <==> old(self).lamports >= amount,
            (r is Ok) ==> final(self)@ == (AccountView {
                lamports: (old(self).lamports - amount) as u64,
                ..old(self)@
            }) && final(to)@ == (AccountView {
                lamports: (old(to).lamports + amount) as u64,
                ..old(to)@
            }),
            (r is Err) ==> final(self)@ == old(self)@ && final(to)@ == old(to)@ && r == (Result::<
                (),
                ProgramError,
            >::Err(ProgramError::InsufficientFunds)),
    {
        if self.lamports < amount {
            return Err(ProgramError::InsufficientFunds);
        }
        self.lamports = self.lamports - amount;
        to.lamports = to.lamports + amount;
        Ok(())
    }
}

impl AccountView {
    pub open spec fn spec_empty() -> AccountView {
        AccountView {
            lamports: 0,
            data: Seq::empty(),
            owner: Pubkey::spec_default(),
            executable: false,
            rent_epoch: 0,
        }
    }
}

/// An account reference within an instruction.
#[derive(Clone, Copy, PartialEq, Eq, Structural, Debug)]
pub struct BorshAccountMeta {
    pub pubkey: Pubkey,
    pub is_signer: bool,
    pub is_writable: bool,
}

/// Errors a program (or the runtime on its behalf) can report, mirroring the
/// platform's numbering on the wire.
#[derive(Clone, PartialEq, Eq, Debug)]
pub enum ProgramError {
    Custom(u32),
    InvalidArgument,
    InvalidInstructionData,
    InvalidAccountData,
    AccountDataTooSmall,
    InsufficientFunds,
    IncorrectProgramId,
    MissingRequiredSignature,
    AccountAlreadyInitialized,
    UninitializedAccount,
    NotEnoughAccountKeys,
    AccountBorrowFailed,
    MaxSeedLengthExceeded,
    InvalidSeeds,
    AccountNotRentExempt,
    UnsupportedSysvar,
    IllegalOwner,
    MaxAccountsDataSizeExceeded,
    InvalidRealloc,
    ArithmeticOverflow,
    /// This emulator's own kind for a request of writability or signer
    /// status beyond what the caller holds; distinct from `Custom(0)`,
    /// which a panic already means.
    PermissionEscalation,
}

/// The numeric code a program error travels as.
pub open spec fn spec_error_code(e: ProgramError) -> u64 {
    match e {
        ProgramError::Custom(n) => if n == 0 {
            0x1_0000_0000u64
        } else {
            n as u64
        },
        ProgramError::InvalidArgument => 0x2_0000_0000u64,
        ProgramError::InvalidInstructionData => 0x3_0000_0000u64,
        ProgramError::InvalidAccountData => 0x4_0000_0000u64,
        ProgramError::AccountDataTooSmall => 0x5_0000_0000u64,
        ProgramError::InsufficientFunds => 0x6_0000_0000u64,
        ProgramError::IncorrectProgramId => 0x7_0000_0000u64,
        ProgramError::MissingRequiredSignature => 0x8_0000_0000u64,
        ProgramError::AccountAlreadyInitialized => 0x9_0000_0000u64,
        ProgramError::UninitializedAccount => 0xa_0000_0000u64,
        ProgramError::NotEnoughAccountKeys => 0xb_0000_0000u64,
        ProgramError::AccountBorrowFailed => 0xc_0000_0000u64,
        ProgramError::MaxSeedLengthExceeded => 0xd_0000_0000u64,
        ProgramError::InvalidSeeds => 0xe_0000_0000u64,
        ProgramError::AccountNotRentExempt => 0x10_0000_0000u64,
        ProgramError::UnsupportedSysvar => 0x11_0000_0000u64,
        ProgramError::IllegalOwner => 0x12_0000_0000u64,
        ProgramError::MaxAccountsDataSizeExceeded => 0x13_0000_0000u64,
        ProgramError::InvalidRealloc => 0x14_0000_0000u64,
        ProgramError::ArithmeticOverflow => 0x18_0000_0000u64,
        ProgramError::PermissionEscalation => 0x19_0000_0000u64,
    }
}

impl ProgramError {
    /// The numeric code this error travels as over the channel.
    pub fn to_code(&self) -> (r: u64)
        ensures
            r == spec_error_code(*self),
            r != 0,
    {
        match self {
            ProgramError::Custom(n) => if *n == 0 {
                0x1_0000_0000u64
            } else {
                *n as u64
            },
            ProgramError::InvalidArgument => 0x2_0000_0000u64,
            ProgramError::InvalidInstructionData => 0x3_0000_0000u64,
            ProgramError::InvalidAccountData => 0x4_0000_0000u64,
            ProgramError::AccountDataTooSmall => 0x5_0000_0000u64,
            ProgramError::InsufficientFunds => 0x6_0000_0000u64,
            ProgramError::IncorrectProgramId => 0x7_0000_0000u64,
            ProgramError::MissingRequiredSignature => 0x8_0000_0000u64,
            ProgramError::AccountAlreadyInitialized => 0x9_0000_0000u64,
            ProgramError::UninitializedAccount => 0xa_0000_0000u64,
            ProgramError::NotEnoughAccountKeys => 0xb_0000_0000u64,
            ProgramError::AccountBorrowFailed => 0xc_0000_0000u64,
            ProgramError::MaxSeedLengthExceeded => 0xd_0000_0000u64,
            ProgramError::InvalidSeeds => 0xe_0000_0000u64,
            ProgramError::AccountNotRentExempt => 0x10_0000_0000u64,
            ProgramError::UnsupportedSysvar => 0x11_0000_0000u64,
            ProgramError::IllegalOwner => 0x12_0000_0000u64,
            ProgramError::MaxAccountsDataSizeExceeded => 0x13_0000_0000u64,
            ProgramError::InvalidRealloc => 0x14_0000_0000u64,
            ProgramError::ArithmeticOverflow => 0x18_0000_0000u64,
            ProgramError::PermissionEscalation => 0x19_0000_0000u64,
        }
    }
}

/// Compare two byte vectors for equality of contents.
pub fn bytes_eq(a: &Vec<u8>, b: &Vec<u8>) -> (r: bool)
    ensures
        r == (a@ == b@),
{
    if a.len() != b.len() {
        proof {
            assert(a@.len() != b@.len());
        }
        return false;
    }
    let mut i: usize = 0;
    while i < a.len()
        invariant
            i <= a.len(),
            a@.len() == b@.len(),
            forall|k: int| 0 <= k < i ==> a@[k] == b@[k],
        decreases a.len() - i,
    {
        if a[i] != b[i] {
            return false;
        }
        i = i + 1;
    }
    proof {
        assert(a@ =~= b@);
    }
    true
}

/// Compare two accounts field by field.
pub fn account_eq(a: &BokkenAccountData, b: &BokkenAccountData) -> (r: bool)
    ensures
        r == (a@ == b@),
{
    let r = a.lamports == b.lamports && bytes_eq(&a.data, &b.data) && a.owner == b.owner
        && a.executable == b.executable && a.rent_epoch == b.rent_epoch;
    r
}

/// A map from pubkeys to accounts, held as an association list with unique
/// keys so that its contents and iteration order are fully specified.
pub struct AccountMap {
    entries: Vec<(Pubkey, BokkenAccountData)>,
}

impl View for AccountMap {
    type V = Map<Pubkey, AccountView>;

    closed spec fn view(&self) -> Map<Pubkey, AccountView> {
        Map::new(
            |pk: Pubkey| exists|i: int| 0 <= i < self.key_seq().len() && self.key_seq()[i] == pk,
            |pk: Pubkey|
                self.entries@[choose|i: int|
                    0 <= i < self.key_seq().len() && self.key_seq()[i] == pk].1@,
        )
    }
}

impl AccountMap {
    /// The keys in insertion order.
    pub closed spec fn key_seq(&self) -> Seq<Pubkey> {
        self.entries@.map(|i: int, e: (Pubkey, BokkenAccountData)| e.0)
    }

    #[verifier::type_invariant]
    spec fn wf(&self) -> bool {
        forall|i: int, j: int|
            0 <= i < j < self.entries@.len() ==> self.entries@[i].0 != self.entries@[j].0
    }

    /// The first position of `pk` among the keys, if present.
    pub open spec fn spec_index_of(&self, pk: Pubkey) -> int {
        choose|i: int| 0 <= i < self.key_seq().len() && self.key_seq()[i] == pk
    }

    pub fn new() -> (r: AccountMap)
        ensures
            r@ == Map::<Pubkey, AccountView>::empty(),
            r.key_seq() == Seq::<Pubkey>::empty(),
    {
        let r = AccountMap { entries: Vec::new() };
        proof {
            assert(r@ =~= Map::<Pubkey, AccountView>::empty());
            assert(r.key_seq() =~= Seq::<Pubkey>::empty());
        }
        r
    }

    /// The number of entries; also exposes that the map's domain is exactly
    /// the distinct keys of `key_seq`.
    pub fn len(&self) -> (n: usize)
        ensures
            n == self.key_seq().len(),
            forall|pk: Pubkey| #[trigger] self@.dom().contains(pk) <==> self.key_seq().contains(pk),
            forall|i: int, j: int|
                0 <= i < j < self.key_seq().len() ==> self.key_seq()[i] != self.key_seq()[j],
            self@.dom().finite(),
    {
        proof {
            use_type_invariant(self);
            assert forall|pk: Pubkey| #[trigger] self@.dom().contains(pk)
                <==> self.key_seq().contains(pk) by {
                if self.key_seq().contains(pk) {
                    let i = self.key_seq().index_of(pk);
                    assert(0 <= i < self.key_seq().len() && self.key_seq()[i] == pk);
                }
            }
            assert(self@.dom() =~= self.key_seq().to_set());
            self.key_seq().lemma_cardinality_of_set();
        }
        self.entries.len()
    }

    /// Find the first position of `pk` among the keys of an entry list.
    fn seq_index_of(es: &Vec<(Pubkey, BokkenAccountData)>, pk: &Pubkey) -> (r: Option<usize>)
        ensures
            match r {
                Some(i) => i < es@.len() && es@[i as int].0 == *pk,
                None => forall|k: int| 0 <= k < es@.len() ==> es@[k].0 != *pk,
            },
    {
        let mut i: usize = 0;
        while i < es.len()
            invariant
                i <= es@.len(),
                forall|k: int| 0 <= k < i ==> es@[k].0 != *pk,
            decreases es@.len() - i,
        {
            if es[i].0 == *pk {
                return Some(i);
            }
            i = i + 1;
        }
        None
    }

    /// Find the position of `pk` among the keys.
    fn index_of(&self, pk: &Pubkey) -> (r: Option<usize>)
        ensures
            match r {
                Some(i) => i < self.key_seq().len() && self.key_seq()[i as int] == *pk
                    && self@.dom().contains(*pk),
                None => !self@.dom().contains(*pk),
            },
    {
        let r = AccountMap::seq_index_of(&self.entries, pk);
        proof {
            if r is None {
                assert forall|k: int|
                    0 <= k < self.key_seq().len() implies self.key_seq()[k] != *pk by {
                    assert(self.entries@[k].0 != *pk);
                }
            }
        }
        r
    }

    pub fn contains_key(&self, pk: &Pubkey) -> (r: bool)
        ensures
            r == self@.dom().contains(*pk),
    {
        self.index_of(pk).is_some()
    }

    pub fn get(&self, pk: &Pubkey) -> (r: Option<&BokkenAccountData>)
        ensures
            match r {
                Some(a) => self@.dom().contains(*pk) && a@ == self@[*pk],
                None => !self@.dom().contains(*pk),
            },
    {
        proof {
            use_type_invariant(self);
        }
        match self.index_of(pk) {
            Some(i) => {
                let a = &self.entries[i].1;
                proof {
                    let j = self.spec_index_of(*pk);
                    assert(self.key_seq()[j] == *pk && self.key_seq()[i as int] == *pk);
                    assert(j == i);
                }
                Some(a)
            },
            None => None,
        }
    }

    /// Insert or replace; existing keys keep their position, new keys go to
    /// the end.
    pub fn insert(&mut self, pk: Pubkey, a: BokkenAccountData)
        ensures
            final(self)@ == old(self)@.insert(pk, a@),
            old(self)@.dom().contains(pk) ==> final(self).key_seq() == old(self).key_seq(),
            !old(self)@.dom().contains(pk) ==> final(self).key_seq() == old(self).key_seq().push(
                pk,
            ),
    {
        proof {
            use_type_invariant(&*self);
        }
        let mut es: Vec<(Pubkey, BokkenAccountData)> = Vec::new();
        core::mem::swap(&mut es, &mut self.entries);
        match AccountMap::seq_index_of(&es, &pk) {
            Some(i) => {
                let mut pair = es.remove(i);
                pair.1 = a;
                es.insert(i, pair);
                proof {
                    assert(es@ =~= old(self).entries@.update(i as int, (pk, a)));
                }
                core::mem::swap(&mut es, &mut self.entries);
                proof {
                    assert(self.entries@[i as int].0 == pk);
                    assert(self.key_seq()[i as int] == pk);
                    let j = self.spec_index_of(pk);
                    assert(self.key_seq()[j] == pk);
                    assert(j == i);
                    assert(self.key_seq() =~= old(self).key_seq());
                    assert forall|q: Pubkey| #[trigger] self@.dom().contains(q) implies self@[q]
                        == old(self)@.insert(pk, a@)[q] by {
                        let x = self.spec_index_of(q);
                        assert(self.key_seq()[x] == q);
                        if q == pk {
                            assert(x == i);
                        } else {
                            let y = old(self).spec_index_of(q);
                            assert(old(self).key_seq()[y] == q);
                            assert(y == x);
                        }
                    }
                    assert(self@ =~= old(self)@.insert(pk, a@));
                }
            },
            None => {
                es.push((pk, a));
                core::mem::swap(&mut es, &mut self.entries);
                proof {
                    assert(self.key_seq() =~= old(self).key_seq().push(pk));
                    assert forall|q: Pubkey| self@.dom().contains(q) <==> old(self)@.insert(
                        pk,
                        a@,
                    ).dom().contains(q) by {
                        if q == pk {
                            assert(self.key_seq()[self.key_seq().len() - 1] == pk);
                        } else {
                            if old(self)@.dom().contains(q) {
                                let i = old(self).spec_index_of(q);
                                assert(self.key_seq()[i] == q);
                            }
                        }
                    }
                    assert forall|q: Pubkey| #[trigger] self@.dom().contains(q) implies self@[q]
                        == old(self)@.insert(pk, a@)[q] by {
                        let i = self.spec_index_of(q);
                        assert(self.key_seq()[i] == q);
                        if q == pk {
                            assert(i == self.key_seq().len() - 1);
                        } else {
                            assert(i < old(self).key_seq().len());
                            let j = old(self).spec_index_of(q);
                            assert(old(self).key_seq()[j] == q);
                            assert(j == i);
                        }
                    }
                    assert(self@ =~= old(self)@.insert(pk, a@));
                }
            },
        }
    }

    /// Remove and return the account under `pk`, keeping the order of the
    /// remaining entries.
    pub fn remove(&mut self, pk: &Pubkey) -> (r: Option<BokkenAccountData>)
        ensures
            final(self)@ == old(self)@.remove(*pk),
            match r {
                Some(a) => old(self)@.dom().contains(*pk) && a@ == old(self)@[*pk],
                None => !old(self)@.dom().contains(*pk),
            },
    {
        proof {
            use_type_invariant(&*self);
        }
        match self.index_of(pk) {
            Some(i) => {
                proof {
                    let j = self.spec_index_of(*pk);
                    assert(self.key_seq()[j] == *pk && self.key_seq()[i as int] == *pk);
                    assert(j == i);
                }
                let mut es: Vec<(Pubkey, BokkenAccountData)> = Vec::new();
                core::mem::swap(&mut es, &mut self.entries);
                let (_, a) = es.remove(i);
                core::mem::swap(&mut es, &mut self.entries);
                proof {
                    assert(self.key_seq() =~= old(self).key_seq().remove(i as int));
                    lemma_key_seq_remove(old(self).key_seq(), self.key_seq(), i as int);
                    assert forall|q: Pubkey| self@.dom().contains(q) <==> old(self)@.remove(
                        *pk,
                    ).dom().contains(q) by {
                        lemma_remove_dom(old(self).key_seq(), self.key_seq(), i as int, q);
                    }
                    assert forall|q: Pubkey| #[trigger] self@.dom().contains(q) implies self@[q]
                        == old(self)@.remove(*pk)[q] by {
                        let a2 = self.spec_index_of(q);
                        assert(self.key_seq()[a2] == q);
                        let b2: int = if a2 < i { a2 } else { a2 + 1 };
                        assert(old(self).key_seq()[b2] == q);
                        let c2 = old(self).spec_index_of(q);
                        assert(old(self).key_seq()[c2] == q);
                        assert(c2 == b2);
                        assert(self.entries@[a2].1 == old(self).entries@[b2].1);
                    }
                    assert(self@ =~= old(self)@.remove(*pk));
                }
                Some(a)
            },
            None => {
                proof {
                    assert(self@ =~= old(self)@.remove(*pk));
                }
                None
            },
        }
    }

    /// A copy with the same contents and order.
    pub fn duplicate(&self) -> (r: AccountMap)
        ensures
            r@ == self@,
            r.key_seq() == self.key_seq(),
    {
        proof {
            use_type_invariant(self);
        }
        let mut entries: Vec<(Pubkey, BokkenAccountData)> = Vec::new();
        let mut i: usize = 0;
        while i < self.entries.len()
            invariant
                i <= self.entries@.len(),
                entries@.len() == i as int,
                forall|k: int|
                    0 <= k < i ==> #[trigger] entries@[k].0 == self.entries@[k].0 && entries@[k].1@
                        == self.entries@[k].1@,
            decreases self.entries@.len() - i,
        {
            let pk = self.entries[i].0;
            let a = self.entries[i].1.duplicate();
            entries.push((pk, a));
            i = i + 1;
        }
        let r = AccountMap { entries };
        proof {
            assert(r.key_seq() =~= self.key_seq());
            assert forall|q: Pubkey| #[trigger] r@.dom().contains(q) <==> self@.dom().contains(
                q,
            ) by {}
            assert forall|q: Pubkey| #[trigger] r@.dom().contains(q) implies r@[q]
                == self@[q] by {
                let k = r.spec_index_of(q);
                assert(r.key_seq()[k] == q);
                let k2 = self.spec_index_of(q);
                assert(self.key_seq()[k2] == q);
                assert(k2 == k);
            }
            assert(r@ =~= self@);
        }
        r
    }

    /// The key at position `i`, in insertion order.
    pub fn key_at(&self, i: usize) -> (r: Pubkey)
        requires
            i < self.key_seq().len(),
        ensures
            r == self.key_seq()[i as int],
            self@.dom().contains(r),
    {
        proof {
            use_type_invariant(self);
            assert(self.key_seq()[i as int] == self.entries@[i as int].0);
        }
        let r = self.entries[i].0;
        proof {
            assert(self@.dom().contains(r));
        }
        r
    }

    /// The account at position `i`, in insertion order.
    pub fn value_at(&self, i: usize) -> (r: &BokkenAccountData)
        requires
            i < self.key_seq().len(),
        ensures
            r@ == self@[self.key_seq()[i as int]],
    {
        proof {
            use_type_invariant(self);
            let pk = self.key_seq()[i as int];
            let j = self.spec_index_of(pk);
            assert(self.key_seq()[j] == pk);
            assert(j == i);
        }
        &self.entries[i].1
    }
}

proof fn lemma_key_seq_remove(a: Seq<Pubkey>, b: Seq<Pubkey>, i: int)
    requires
        0 <= i < a.len(),
        b == a.remove(i),
    ensures
        forall|k: int| 0 <= k < i ==> b[k] == a[k],
        forall|k: int| i <= k < b.len() ==> b[k] == a[k + 1],
        b.len() == a.len() - 1,
{
}

proof fn lemma_remove_dom(a: Seq<Pubkey>, b: Seq<Pubkey>, i: int, q: Pubkey)
    requires
        0 <= i < a.len(),
        b == a.remove(i),
        forall|x: int, y: int| 0 <= x < y < a.len() ==> a[x] != a[y],
    ensures
        (exists|k: int| 0 <= k < b.len() && b[k] == q) <==> ((exists|k: int|
            0 <= k < a.len() && a[k] == q) && q != a[i]),
{
    if exists|k: int| 0 <= k < b.len() && b[k] == q {
        let k = choose|k: int| 0 <= k < b.len() && b[k] == q;
        if k < i {
            assert(a[k] == q);
        } else {
            assert(a[k + 1] == q);
        }
    }
    if (exists|k: int| 0 <= k < a.len() && a[k] == q) && q != a[i] {
        let k = choose|k: int| 0 <= k < a.len() && a[k] == q;
        if k < i {
            assert(b[k] == q);
        } else {
            assert(b[k - 1] == q);
        }
    }
}

} // verus!
