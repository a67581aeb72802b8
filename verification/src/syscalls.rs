//! The child-side syscall decisions: the stack of live invocations, the
//! return-data slot, log message construction, and the cross-program
//! invocation path with its permission checks. The platform calls arrive
//! from the entrypoint thread; everything they decide is here, while the
//! blocking channel I/O around it stays outside.

use crate::account::{AccountMap, BokkenAccountData, BorshAccountMeta, ProgramError, Pubkey};
use crate::blob::SolanaAccountsBlob;
use crate::encodings::{base64_encode, base64_of};
use crate::messages::BokkenRuntimeMessage;
use crate::pda::{create_program_address, program_address_of};
use crate::textutil::{panic_log, program_log, spec_panic_log, spec_program_log};
use vstd::prelude::*;

verus! {

/// The code a sysvar getter returns when no synthesized account backs it.
pub const UNSUPPORTED_SYSVAR: u64 = 0x11_0000_0000;

/// One live invocation on the child: its blob, request nonce and depth.
pub struct BokkenSolanaContext {
    pub blob: SolanaAccountsBlob,
    pub nonce: u64,
    pub cpi_height: u8,
}

impl BokkenSolanaContext {
    pub open spec fn spec_nonce(&self) -> u64 {
        self.nonce
    }

    pub open spec fn spec_cpi_height(&self) -> u8 {
        self.cpi_height
    }

    /// Build the context for one `Invoke`: the blob plus its correlation
    /// data.
    pub fn new(
        program_id: Pubkey,
        instruction: Vec<u8>,
        account_metas: Vec<BorshAccountMeta>,
        account_datas: AccountMap,
        nonce: u64,
        cpi_height: u8,
    ) -> (r: BokkenSolanaContext)
        requires
            forall|i: int|
                0 <= i < account_metas@.len() ==> account_datas@.dom().contains(
                    #[trigger] account_metas@[i].pubkey,
                ),
            forall|q: Pubkey|
                account_datas@.dom().contains(q) ==> #[trigger] account_datas@[q].data.len()
                    <= 0xffff_ffff,
        ensures
            r.blob.built_from(program_id, instruction@, account_metas@, account_datas@),
            r.spec_nonce() == nonce,
            r.spec_cpi_height() == cpi_height,
    {
        BokkenSolanaContext {
            blob: SolanaAccountsBlob::new(program_id, instruction, account_metas, account_datas),
            nonce,
            cpi_height,
        }
    }

    pub fn nonce(&self) -> (r: u64)
        ensures
            r == self.spec_nonce(),
    {
        self.nonce
    }

    pub fn cpi_height(&self) -> (r: u8)
        ensures
            r == self.spec_cpi_height(),
    {
        self.cpi_height
    }

    pub fn get_account_data(&self, pk: &Pubkey) -> (r: Option<BokkenAccountData>)
        requires
            self.blob.wf(),
        ensures
            match r {
                Some(a) => self.blob.has_account(*pk) && a@ == self.blob.spec_account(*pk),
                None => !self.blob.has_account(*pk),
            },
    {
        self.blob.get_account_data(pk)
    }

    pub fn is_writable(&self, pk: &Pubkey) -> (r: bool)
        requires
            self.blob.wf(),
        ensures
            r == self.blob.spec_is_writable(*pk),
    {
        self.blob.is_writable(pk)
    }

    pub fn is_signer(&self, pk: &Pubkey) -> (r: bool)
        requires
            self.blob.wf(),
        ensures
            r == self.blob.spec_is_signer(*pk),
    {
        self.blob.is_signer(pk)
    }

    pub fn get_account_datas(&self) -> (r: AccountMap)
        requires
            self.blob.wf(),
        ensures
            r@ == self.blob.accounts(),
    {
        self.blob.get_account_datas()
    }
}

/// The stack of live invocations; syscalls consult its top frame.
pub struct ContextStack {
    contexts: Vec<BokkenSolanaContext>,
}

impl ContextStack {
    pub closed spec fn frames(&self) -> Seq<BokkenSolanaContext> {
        self.contexts@
    }

    pub fn new() -> (r: ContextStack)
        ensures
            r.frames() == Seq::<BokkenSolanaContext>::empty(),
    {
        ContextStack { contexts: Vec::new() }
    }

    pub fn depth(&self) -> (r: usize)
        ensures
            r == self.frames().len(),
    {
        self.contexts.len()
    }

    pub fn push(&mut self, ctx: BokkenSolanaContext)
        ensures
            final(self).frames() == old(self).frames().push(ctx),
    {
        self.contexts.push(ctx);
    }

    pub fn pop(&mut self) -> (r: Option<BokkenSolanaContext>)
        ensures
            old(self).frames().len() == 0 ==> final(self).frames() == old(self).frames() && r
                is None,
            old(self).frames().len() > 0 ==> final(self).frames() == old(self).frames().drop_last()
                && (r matches Some(c) && c == old(self).frames().last()),
    {
        self.contexts.pop()
    }

    /// The active frame's stack height, what `sol_get_stack_height`
    /// reports.
    pub fn stack_height(&self) -> (r: u8)
        requires
            self.frames().len() > 0,
        ensures
            r == self.frames().last().spec_cpi_height(),
    {
        self.contexts[self.contexts.len() - 1].cpi_height()
    }

    /// The active frame's request nonce.
    pub fn nonce(&self) -> (r: u64)
        requires
            self.frames().len() > 0,
        ensures
            r == self.frames().last().spec_nonce(),
    {
        self.contexts[self.contexts.len() - 1].nonce()
    }

    /// Borrow the active frame.
    pub fn top(&self) -> (r: &BokkenSolanaContext)
        requires
            self.frames().len() > 0,
        ensures
            *r == self.frames().last(),
    {
        &self.contexts[self.contexts.len() - 1]
    }

    /// Write a finished CPI's accounts back into the active frame's blob.
    pub fn apply_cpi_results_top(&mut self, accounts: &AccountMap) -> (r: Result<
        (),
        ProgramError,
    >)
        requires
            old(self).frames().len() > 0,
            old(self).frames().last().blob.wf(),
        ensures
            final(self).frames().len() == old(self).frames().len(),
            final(self).frames().last().blob.wf(),
            final(self).frames().last().spec_nonce() == old(self).frames().last().spec_nonce(),
            final(self).frames().last().spec_cpi_height() == old(
                self,
            ).frames().last().spec_cpi_height(),
    {
        let mut top = match self.pop() {
            Some(c) => c,
            None => {
                proof {
                    assert(false);
                }
                return Err(ProgramError::InvalidAccountData);
            },
        };
        let r = apply_cpi_results(&mut top.blob, accounts);
        self.push(top);
        r
    }
}

/// The return-data slot: cleared at the start of each invocation, set only
/// by the currently executing program.
pub struct ReturnDataSlot {
    data: Option<(Pubkey, Vec<u8>)>,
}

impl ReturnDataSlot {
    pub closed spec fn spec_data(&self) -> Option<(Pubkey, Seq<u8>)> {
        match self.data {
            Some((pk, ref v)) => Some((pk, v@)),
            None => None,
        }
    }

    pub fn new() -> (r: ReturnDataSlot)
        ensures
            r.spec_data() is None,
    {
        ReturnDataSlot { data: None }
    }

    pub fn clear(&mut self)
        ensures
            final(self).spec_data() is None,
    {
        self.data = None;
    }

    /// `sol_set_return_data`: store the current program's data.
    pub fn set(&mut self, program_id: Pubkey, bytes: Vec<u8>)
        ensures
            final(self).spec_data() == Some((program_id, bytes@)),
    {
        self.data = Some((program_id, bytes));
    }

    /// `sol_get_return_data`: a copy of what is stored.
    pub fn get(&self) -> (r: Option<(Pubkey, Vec<u8>)>)
        ensures
            match r {
                Some((pk, v)) => self.spec_data() == Some((pk, v@)),
                None => self.spec_data() is None,
            },
    {
        match &self.data {
            Some((pk, v)) => Some((*pk, crate::bytesutil::read_bytes(v, 0, v.len()))),
            None => None,
        }
    }
}

/// `sol_log`: the frame the validator receives for one program log line.
pub fn make_log_message(nonce: u64, msg: &str) -> (r: BokkenRuntimeMessage)
    ensures
        (r matches BokkenRuntimeMessage::Log { nonce: n2, message } && n2 == nonce && message@
            == spec_program_log(msg@)),
{
    BokkenRuntimeMessage::Log { nonce, message: program_log(msg) }
}

/// `sol_log_compute_units`: the platform call is not available here, and
/// says so through an ordinary log line.
pub fn make_compute_units_message(nonce: u64) -> (r: BokkenRuntimeMessage)
    ensures
        (r matches BokkenRuntimeMessage::Log { nonce: n2, message } && n2 == nonce && message@
            == spec_program_log("WARNING: sol_log_compute_units() not available"@)),
{
    make_log_message(nonce, "WARNING: sol_log_compute_units() not available")
}

/// The base64 texts of the logged fields, joined by single spaces.
pub open spec fn spec_joined_base64(fields: Seq<Seq<u8>>) -> Seq<char>
    decreases fields.len(),
{
    if fields.len() == 0 {
        Seq::empty()
    } else if fields.len() == 1 {
        base64_of(fields[0])
    } else {
        spec_joined_base64(fields.drop_last()) + seq![' '] + base64_of(fields.last())
    }
}

/// `sol_log_data`: one log line holding every field in base64.
pub fn make_log_data_message(nonce: u64, fields: &Vec<Vec<u8>>) -> (r: BokkenRuntimeMessage)
    ensures
        (r matches BokkenRuntimeMessage::Log { nonce: n2, message } && n2 == nonce && message@
            == spec_program_log(
            "data: "@ + spec_joined_base64(fields@.map(|i: int, f: Vec<u8>| f@)),
        )),
{
    let ghost views = fields@.map(|i: int, f: Vec<u8>| f@);
    let mut joined = String::new();
    let mut i: usize = 0;
    while i < fields.len()
        invariant
            views == fields@.map(|k: int, f: Vec<u8>| f@),
            i <= fields@.len(),
            joined@ == spec_joined_base64(views.take(i as int)),
        decreases fields@.len() - i,
    {
        let piece = base64_encode(&fields[i]);
        if i > 0 {
            joined = joined.concat(" ").concat(piece.as_str());
        } else {
            joined = joined.concat(piece.as_str());
        }
        proof {
            reveal_strlit(" ");
            assert(views.take(i + 1).drop_last() =~= views.take(i as int));
            assert(views.take(i + 1).last() == views[i as int]);
            if i > 0 {
                assert(joined@ =~= spec_joined_base64(views.take(i + 1)));
            } else {
                assert(joined@ =~= base64_of(views[0]));
                assert(joined@ =~= spec_joined_base64(views.take(1)));
            }
        }
        i = i + 1;
    }
    proof {
        assert(views.take(views.len() as int) =~= views);
    }
    let line = String::from_str("data: ").concat(joined.as_str());
    proof {
        assert(line@ == "data: "@ + spec_joined_base64(views));
    }
    BokkenRuntimeMessage::Log { nonce, message: crate::textutil::program_log(line.as_str()) }
}

/// Why a cross-program invocation is rejected before any child runs.
#[derive(Clone, Copy, PartialEq, Eq, Structural, Debug)]
pub enum CpiError {
    /// An account info's key does not line up with its meta.
    AccountMismatch,
    /// The metas ask for writability the calling frame does not hold.
    PermissionEscalation,
    /// The metas ask for a signature the frame does not hold and no signer
    /// seed derives.
    MissingSignature,
    /// A meta names an account the calling frame does not hold at all.
    UnknownAccount,
}

impl CpiError {
    /// The program error the entrypoint observes for this rejection; the
    /// escalation kind keeps its own value rather than re-using `Custom(0)`,
    /// which a panic already means.
    pub fn to_program_error(&self) -> (r: ProgramError)
        ensures
            *self == CpiError::AccountMismatch ==> r == ProgramError::InvalidAccountData,
            *self == CpiError::PermissionEscalation ==> r == ProgramError::PermissionEscalation,
            *self == CpiError::MissingSignature ==> r == ProgramError::MissingRequiredSignature,
            *self == CpiError::UnknownAccount ==> r == ProgramError::UninitializedAccount,
    {
        match self {
            CpiError::AccountMismatch => ProgramError::InvalidAccountData,
            CpiError::PermissionEscalation => ProgramError::PermissionEscalation,
            CpiError::MissingSignature => ProgramError::MissingRequiredSignature,
            CpiError::UnknownAccount => ProgramError::UninitializedAccount,
        }
    }
}

/// The first rejection among the metas from position `i` on, if any.
pub open spec fn spec_cpi_check(
    blob: &SolanaAccountsBlob,
    metas: Seq<BorshAccountMeta>,
    info_keys: Seq<Pubkey>,
    just_signed: Seq<Pubkey>,
    i: int,
) -> Option<CpiError>
    decreases metas.len() - i,
{
    if i >= metas.len() {
        None
    } else {
        let pk = metas[i].pubkey;
        if i >= info_keys.len() || info_keys[i] != pk {
            Some(CpiError::AccountMismatch)
        } else if metas[i].is_writable && !blob.spec_is_writable(pk) {
            Some(CpiError::PermissionEscalation)
        } else if metas[i].is_signer && !blob.spec_is_signer(pk) && !just_signed.contains(pk) {
            Some(CpiError::MissingSignature)
        } else if !blob.has_account(pk) {
            Some(CpiError::UnknownAccount)
        } else {
            spec_cpi_check(blob, metas, info_keys, just_signed, i + 1)
        }
    }
}

/// Permission escalation: when the checks pass, every meta's requested
/// writability and signer status is already held by the calling frame (or
/// covered by a just-signed seed); so any escalating request is rejected
/// before a child is reinvoked.
pub proof fn lemma_no_escalation_when_valid(
    blob: &SolanaAccountsBlob,
    metas: Seq<BorshAccountMeta>,
    info_keys: Seq<Pubkey>,
    just_signed: Seq<Pubkey>,
    i: int,
)
    requires
        0 <= i,
        spec_cpi_check(blob, metas, info_keys, just_signed, i) is None,
    ensures
        forall|j: int|
            i <= j < metas.len() && (#[trigger] metas[j]).is_writable ==> blob.spec_is_writable(
                metas[j].pubkey,
            ),
        forall|j: int|
            i <= j < metas.len() && (#[trigger] metas[j]).is_signer ==> (blob.spec_is_signer(
                metas[j].pubkey,
            ) || just_signed.contains(metas[j].pubkey)),
    decreases metas.len() - i,
{
    if i < metas.len() {
        lemma_no_escalation_when_valid(blob, metas, info_keys, just_signed, i + 1);
    }
}

/// Validate a requested invocation against the calling frame and snapshot
/// the touched accounts. Fails exactly on the first mismatch, escalation or
/// missing signature, before anything is sent.
pub fn cpi_validate(
    blob: &SolanaAccountsBlob,
    metas: &Vec<BorshAccountMeta>,
    info_keys: &Vec<Pubkey>,
    just_signed: &Vec<Pubkey>,
) -> (r: Result<AccountMap, CpiError>)
    requires
        blob.wf(),
    ensures
        match r {
            Err(e) => Some(e) == spec_cpi_check(blob, metas@, info_keys@, just_signed@, 0),
            Ok(snapshot) => (spec_cpi_check(blob, metas@, info_keys@, just_signed@, 0) is None)
                && (forall|q: Pubkey|
                #[trigger] snapshot@.dom().contains(q) <==> exists|j: int|
                    0 <= j < metas@.len() && (#[trigger] metas@[j]).pubkey == q) && (forall|
                q: Pubkey,
            |
                #[trigger] snapshot@.dom().contains(q) ==> snapshot@[q] == blob.spec_account(q)),
        },
{
    let mut snapshot = AccountMap::new();
    let mut i: usize = 0;
    while i < metas.len()
        invariant
            blob.wf(),
            i <= metas@.len(),
            spec_cpi_check(blob, metas@, info_keys@, just_signed@, 0) == spec_cpi_check(
                blob,
                metas@,
                info_keys@,
                just_signed@,
                i as int,
            ),
            forall|q: Pubkey|
                #[trigger] snapshot@.dom().contains(q) <==> exists|j: int|
                    0 <= j < i && (#[trigger] metas@[j]).pubkey == q,
            forall|q: Pubkey|
                #[trigger] snapshot@.dom().contains(q) ==> snapshot@[q] == blob.spec_account(q),
        decreases metas@.len() - i,
    {
        let meta = metas[i];
        let pk = meta.pubkey;
        if i >= info_keys.len() || info_keys[i] != pk {
            return Err(CpiError::AccountMismatch);
        }
        if meta.is_writable && !blob.is_writable(&pk) {
            return Err(CpiError::PermissionEscalation);
        }
        if meta.is_signer && !blob.is_signer(&pk) && !crate::executor::vec_contains_pubkey(
            just_signed,
            &pk,
        ) {
            return Err(CpiError::MissingSignature);
        }
        match blob.get_account_data(&pk) {
            Some(a) => {
                snapshot.insert(pk, a);
            },
            None => {
                return Err(CpiError::UnknownAccount);
            },
        }
        proof {
            assert forall|q: Pubkey| #[trigger] snapshot@.dom().contains(q) <==> exists|j: int|
                0 <= j < i + 1 && (#[trigger] metas@[j]).pubkey == q by {
                if snapshot@.dom().contains(q) && q != pk {
                    let j = choose|j: int| 0 <= j < i && (#[trigger] metas@[j]).pubkey == q;
                } else if q == pk {
                    assert(metas@[i as int].pubkey == q);
                }
                if exists|j: int| 0 <= j < i + 1 && (#[trigger] metas@[j]).pubkey == q {
                    let j = choose|j: int| 0 <= j < i + 1 && (#[trigger] metas@[j]).pubkey == q;
                    if j < i {
                        assert(snapshot@.dom().contains(q));
                    }
                }
            }
        }
        i = i + 1;
    }
    Ok(snapshot)
}

/// Derive the just-signed set from the seed lists handed to
/// `sol_invoke_signed`: one derived address per seed group, succeeding
/// exactly when every group is derivable.
pub fn derive_just_signed(seeds: &Vec<Vec<Vec<u8>>>, program_id: &Pubkey) -> (r: Result<
    Vec<Pubkey>,
    ProgramError,
>)
    ensures
        (r is Ok) <==> (forall|i: int|
            0 <= i < seeds@.len() ==> crate::pda::pda_derivable(
                (#[trigger] seeds@[i])@.map(|k: int, s: Vec<u8>| s@),
                crate::account::pubkey_bytes(*program_id),
            )),
        r matches Ok(v) ==> v@.len() == seeds@.len() && forall|i: int|
            0 <= i < v@.len() ==> crate::account::pubkey_bytes(#[trigger] v@[i])
                == program_address_of(
                seeds@[i]@.map(|k: int, s: Vec<u8>| s@),
                crate::account::pubkey_bytes(*program_id),
            ),
        r matches Err(e) ==> (e == ProgramError::MaxSeedLengthExceeded || e
            == ProgramError::InvalidSeeds || e == ProgramError::IllegalOwner),
{
    let pid_bytes = program_id.to_bytes();
    let mut r: Vec<Pubkey> = Vec::new();
    let mut i: usize = 0;
    while i < seeds.len()
        invariant
            i <= seeds@.len(),
            pid_bytes@ == crate::account::pubkey_bytes(*program_id),
            pid_bytes@.len() == 32,
            r@.len() == i as int,
            forall|k: int|
                0 <= k < i ==> crate::account::pubkey_bytes(#[trigger] r@[k])
                    == program_address_of(
                    seeds@[k]@.map(|k2: int, s: Vec<u8>| s@),
                    crate::account::pubkey_bytes(*program_id),
                ),
            forall|k: int|
                0 <= k < i ==> crate::pda::pda_derivable(
                    (#[trigger] seeds@[k])@.map(|k2: int, s: Vec<u8>| s@),
                    crate::account::pubkey_bytes(*program_id),
                ),
        decreases seeds@.len() - i,
    {
        match create_program_address(&seeds[i], &pid_bytes) {
            Ok(b) => {
                let pk = Pubkey::from_bytes(b.as_slice());
                proof {
                    crate::blob::lemma_pubkey_bytes_inverse(pk);
                }
                r.push(pk);
            },
            Err(e) => {
                return Err(e);
            },
        }
        i = i + 1;
    }
    Ok(r)
}

/// Write the accounts a finished CPI returned back into the caller's blob.
/// Succeeds exactly when every returned account has a record and fits under
/// its growth cap; each such record then holds the returned lamports, data
/// and owner, keeping its executable flag and rent epoch.
pub fn apply_cpi_results(blob: &mut SolanaAccountsBlob, accounts: &AccountMap) -> (r: Result<
    (),
    ProgramError,
>)
    requires
        old(blob).wf(),
    ensures
        final(blob).wf(),
        forall|q: Pubkey| final(blob).has_account(q) == old(blob).has_account(q),
        (r is Ok) <==> forall|q: Pubkey|
            #[trigger] accounts@.dom().contains(q) ==> old(blob).has_account(q)
                && accounts@[q].data.len() <= old(blob).spec_original_len(q) + 10240,
        (r is Ok) ==> forall|q: Pubkey|
            #[trigger] accounts@.dom().contains(q) ==> final(blob).spec_account(q)
                == (crate::account::AccountView {
                lamports: accounts@[q].lamports,
                data: accounts@[q].data,
                owner: accounts@[q].owner,
                executable: old(blob).spec_account(q).executable,
                rent_epoch: old(blob).spec_account(q).rent_epoch,
            }),
        (r is Ok) ==> forall|q: Pubkey|
            old(blob).has_account(q) && !accounts@.dom().contains(q) ==> #[trigger] final(blob).spec_account(q) == old(blob).spec_account(q),
{
    let n = accounts.len();
    let mut j: usize = 0;
    while j < n
        invariant
            blob.wf(),
            j <= n,
            n == accounts.key_seq().len(),
            forall|q: Pubkey|
                #[trigger] accounts@.dom().contains(q) <==> accounts.key_seq().contains(q),
            forall|k1: int, k2: int|
                0 <= k1 < k2 < accounts.key_seq().len() ==> accounts.key_seq()[k1]
                    != accounts.key_seq()[k2],
            forall|q: Pubkey| blob.has_account(q) == old(blob).has_account(q),
            forall|q: Pubkey| #[trigger] blob.spec_is_signer(q) == old(blob).spec_is_signer(q),
            forall|q: Pubkey|
                #[trigger] blob.spec_is_writable(q) == old(blob).spec_is_writable(q),
            forall|q: Pubkey|
                old(blob).has_account(q) ==> #[trigger] blob.spec_original_len(q) == old(blob).spec_original_len(q),
            forall|k: int|
                0 <= k < j ==> old(blob).has_account(#[trigger] accounts.key_seq()[k])
                    && accounts@[accounts.key_seq()[k]].data.len() <= old(blob).spec_original_len(accounts.key_seq()[k]) + 10240,
            forall|k: int|
                0 <= k < j ==> #[trigger] blob.spec_account(accounts.key_seq()[k])
                    == (crate::account::AccountView {
                    lamports: accounts@[accounts.key_seq()[k]].lamports,
                    data: accounts@[accounts.key_seq()[k]].data,
                    owner: accounts@[accounts.key_seq()[k]].owner,
                    executable: old(blob).spec_account(accounts.key_seq()[k]).executable,
                    rent_epoch: old(blob).spec_account(accounts.key_seq()[k]).rent_epoch,
                }),
            forall|q: Pubkey|
                old(blob).has_account(q) && !(exists|k: int|
                    0 <= k < j && accounts.key_seq()[k] == q) ==> #[trigger] blob.spec_account(q)
                    == old(blob).spec_account(q),
        decreases n - j,
    {
        let pk = accounts.key_at(j);
        let a = accounts.value_at(j).duplicate();
        let ghost pre = *blob;
        match blob.set_account_data(&pk, &a) {
            Ok(_) => {},
            Err(e) => {
                proof {
                    let q = accounts.key_seq()[j as int];
                    assert(accounts.key_seq().contains(q));
                    assert(accounts@.dom().contains(q));
                    assert(!(pre.has_account(q) && a.data@.len() <= pre.spec_original_len(q)
                        + 10240));
                }
                return Err(e);
            },
        }
        proof {
            let q = accounts.key_seq()[j as int];
            assert(blob.accounts() == pre.accounts().insert(q, pre.spec_updated(q, a@)));
            assert(blob.spec_account(q) == blob.accounts()[q]);
            assert forall|k: int|
                0 <= k < j + 1 implies #[trigger] blob.spec_account(accounts.key_seq()[k])
                == (crate::account::AccountView {
                lamports: accounts@[accounts.key_seq()[k]].lamports,
                data: accounts@[accounts.key_seq()[k]].data,
                owner: accounts@[accounts.key_seq()[k]].owner,
                executable: old(blob).spec_account(accounts.key_seq()[k]).executable,
                rent_epoch: old(blob).spec_account(accounts.key_seq()[k]).rent_epoch,
            }) by {
                let qk = accounts.key_seq()[k];
                assert(blob.has_account(qk));
                if k < j {
                    assert(qk != q);
                    assert(blob.spec_account(qk) == blob.accounts()[qk]);
                    assert(blob.accounts()[qk] == pre.accounts()[qk]);
                    assert(pre.accounts()[qk] == pre.spec_account(qk));
                }
            }
            assert forall|q2: Pubkey|
                old(blob).has_account(q2) && !(exists|k: int|
                    0 <= k < j + 1 && accounts.key_seq()[k] == q2) implies #[trigger] blob
                .spec_account(q2) == old(blob).spec_account(q2) by {
                assert(q2 != q);
                assert(blob.spec_account(q2) == blob.accounts()[q2]);
                assert(blob.accounts()[q2] == pre.accounts()[q2]);
                assert(pre.accounts()[q2] == pre.spec_account(q2));
            }
        }
        j = j + 1;
    }
    proof {
        assert forall|q: Pubkey|
            #[trigger] accounts@.dom().contains(q) implies old(blob).has_account(q)
            && accounts@[q].data.len() <= old(blob).spec_original_len(q) + 10240 by {
            let k = choose|k: int|
                0 <= k < accounts.key_seq().len() && accounts.key_seq()[k] == q;
        }
        assert forall|q: Pubkey|
            #[trigger] accounts@.dom().contains(q) implies final(blob).spec_account(q)
            == (crate::account::AccountView {
            lamports: accounts@[q].lamports,
            data: accounts@[q].data,
            owner: accounts@[q].owner,
            executable: old(blob).spec_account(q).executable,
            rent_epoch: old(blob).spec_account(q).rent_epoch,
        }) by {
            let k = choose|k: int|
                0 <= k < accounts.key_seq().len() && accounts.key_seq()[k] == q;
        }
    }
    Ok(())
}

/// The frames the child reports when an invocation finishes: its result on
/// success, or a panic log followed by a synthesized failure.
pub fn completion_messages(
    nonce: u64,
    outcome: Result<u64, String>,
    account_datas: AccountMap,
) -> (r: Vec<BokkenRuntimeMessage>)
    ensures
        match outcome {
            Ok(code) => r@.len() == 1 && (r@[0] matches BokkenRuntimeMessage::Executed {
                nonce: n2,
                return_code,
                account_datas: d2,
            } && n2 == nonce && return_code == code && d2 == account_datas),
            Err(msg) => r@.len() == 2 && (r@[0] matches BokkenRuntimeMessage::Log {
                nonce: n2,
                message,
            } && n2 == nonce && message@ == spec_panic_log(msg@)) && (r@[1]
                matches BokkenRuntimeMessage::Executed { nonce: n3, return_code, account_datas: d3 }
                && n3 == nonce && return_code == crate::account::spec_error_code(
                ProgramError::Custom(0),
            ) && d3 == account_datas),
        },
{
    let mut r: Vec<BokkenRuntimeMessage> = Vec::new();
    match outcome {
        Ok(code) => {
            r.push(
                BokkenRuntimeMessage::Executed { nonce, return_code: code, account_datas },
            );
        },
        Err(msg) => {
            r.push(BokkenRuntimeMessage::Log { nonce, message: panic_log(msg.as_str()) });
            let code = ProgramError::Custom(0).to_code();
            r.push(
                BokkenRuntimeMessage::Executed { nonce, return_code: code, account_datas },
            );
        },
    }
    r
}



/// The frame a validated cross-program invocation travels as: the request
/// fields plus the snapshot `cpi_validate` produced, on the caller's nonce.
pub fn make_cpi_message(
    nonce: u64,
    program_id: Pubkey,
    instruction: Vec<u8>,
    account_metas: Vec<BorshAccountMeta>,
    snapshot: AccountMap,
    call_depth: u8,
) -> (r: BokkenRuntimeMessage)
    ensures
        (r matches BokkenRuntimeMessage::CrossProgramInvoke {
            nonce: n2,
            program_id: p2,
            instruction: i2,
            account_metas: m2,
            account_datas: d2,
            call_depth: c2,
        } && n2 == nonce && p2 == program_id && i2 == instruction && m2 == account_metas && d2
            == snapshot && c2 == call_depth),
        r.nonce() == nonce,
{
    BokkenRuntimeMessage::CrossProgramInvoke {
        nonce,
        program_id,
        instruction,
        account_metas,
        account_datas: snapshot,
        call_depth,
    }
}

/// Control messages the child's execution task consumes.
pub enum BokkenSyscallMsg {
    PushContext { ctx: BokkenSolanaContext },
    PopContext,
}

/// What the child's read loop does with one validator frame.
pub enum RuntimeAction {
    /// Push this context and start the entrypoint on its blob.
    StartExecution { ctx: BokkenSolanaContext },
    /// Hand a finished nested invocation's result to the waiter on `nonce`.
    CpiResult { nonce: u64, return_code: u64, account_datas: AccountMap },
    /// The frame does not describe a runnable invocation.
    Malformed,
}

/// Decide on one inbound validator frame: an `Invoke` whose metas are all
/// backed by accounts becomes a new execution context; a result frame is
/// routed to its nonce.
pub fn runtime_step(msg: crate::messages::BokkenValidatorMessage) -> (r: RuntimeAction)
    ensures
        match msg {
            crate::messages::BokkenValidatorMessage::Invoke {
                nonce,
                program_id,
                instruction,
                account_metas,
                account_datas,
                call_depth,
            } => {
                if (forall|i: int|
                    0 <= i < account_metas@.len() ==> account_datas@.dom().contains(
                        #[trigger] account_metas@[i].pubkey,
                    )) && (forall|q: Pubkey|
                    account_datas@.dom().contains(q) ==> (#[trigger] account_datas@[q]).data.len()
                        <= 0xffff_ffff) {
                    r matches RuntimeAction::StartExecution { ctx } && ctx.blob.built_from(
                        program_id,
                        instruction@,
                        account_metas@,
                        account_datas@,
                    ) && ctx.spec_nonce() == nonce && ctx.spec_cpi_height() == call_depth
                } else {
                    r is Malformed
                }
            },
            crate::messages::BokkenValidatorMessage::CrossProgramInvokeResult {
                nonce,
                return_code,
                account_datas,
            } => (r matches RuntimeAction::CpiResult {
                nonce: n2,
                return_code: c2,
                account_datas: d2,
            } && n2 == nonce && c2 == return_code && d2 == account_datas),
        },
{
    match msg {
        crate::messages::BokkenValidatorMessage::Invoke {
            nonce,
            program_id,
            instruction,
            account_metas,
            account_datas,
            call_depth,
        } => {
            proof {
                assert(msg is Invoke);
                assert(account_datas == msg->Invoke_account_datas);
                assert(account_metas == msg->Invoke_account_metas);
            }
            let mut i: usize = 0;
            while i < account_metas.len()
                invariant
                    msg is Invoke,
                    account_datas == msg->Invoke_account_datas,
                    account_metas == msg->Invoke_account_metas,
                    i <= account_metas@.len(),
                    forall|k: int|
                        0 <= k < i ==> account_datas@.dom().contains(
                            #[trigger] account_metas@[k].pubkey,
                        ),
                decreases account_metas@.len() - i,
            {
                if !account_datas.contains_key(&account_metas[i].pubkey) {
                    proof {
                        assert(!account_datas@.dom().contains(account_metas@[i as int].pubkey));
                    }
                    return RuntimeAction::Malformed;
                }
                i = i + 1;
            }
            let n = account_datas.len();
            let mut j: usize = 0;
            while j < n
                invariant
                    msg is Invoke,
                    account_datas == msg->Invoke_account_datas,
                    account_metas == msg->Invoke_account_metas,
                    forall|k: int|
                        0 <= k < account_metas@.len() ==> account_datas@.dom().contains(
                            #[trigger] account_metas@[k].pubkey,
                        ),
                    j <= n,
                    n == account_datas.key_seq().len(),
                    forall|q: Pubkey|
                        #[trigger] account_datas@.dom().contains(q)
                            <==> account_datas.key_seq().contains(q),
                    forall|k: int|
                        0 <= k < j ==> (#[trigger] account_datas@[account_datas.key_seq()[k]]).data.len()
                            <= 0xffff_ffff,
                decreases n - j,
            {
                let a = account_datas.value_at(j);
                if a.data.len() > 0xffff_ffff {
                    proof {
                        let q = account_datas.key_seq()[j as int];
                        assert(account_datas.key_seq().contains(q));
                        assert(account_datas@.dom().contains(q));
                        assert(account_datas@[q].data.len() > 0xffff_ffff);
                    }
                    return RuntimeAction::Malformed;
                }
                proof {
                    assert(account_datas@[account_datas.key_seq()[j as int]].data.len()
                        <= 0xffff_ffff);
                }
                j = j + 1;
            }
            proof {
                assert forall|q: Pubkey|
                    account_datas@.dom().contains(q) implies (
                #[trigger] account_datas@[q]).data.len() <= 0xffff_ffff by {
                    let k = choose|k: int|
                        0 <= k < account_datas.key_seq().len() && account_datas.key_seq()[k] == q;
                }
            }
            let ctx = BokkenSolanaContext::new(
                program_id,
                instruction,
                account_metas,
                account_datas,
                nonce,
                call_depth,
            );
            RuntimeAction::StartExecution { ctx }
        },
        crate::messages::BokkenValidatorMessage::CrossProgramInvokeResult {
            nonce,
            return_code,
            account_datas,
        } => RuntimeAction::CpiResult { nonce, return_code, account_datas },
    }
}

} // verus!
