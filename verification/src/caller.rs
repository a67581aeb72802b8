//! The validator's program caller: the registry of connected programs, the
//! per-nonce routing of inbound frames, the in-process call of the built-in
//! system program, and the decision taken on each completion or nested
//! cross-program invocation. The socket loop around these functions only
//! performs the sends and awaits they prescribe.

use crate::account::{AccountMap, BorshAccountMeta, ProgramError, Pubkey};
use crate::error::BokkenError;
use crate::messages::{BokkenRuntimeMessage, BokkenValidatorMessage};
use crate::system_program::DebugSystemProgram;
use crate::textutil::{
    invoke_log, returned_log, spec_invoke_log, spec_returned_log, spec_success_log, success_log,
};
use vstd::prelude::*;

verus! {

/// What a drained frame left for a waiting call: a completion or a nested
/// invocation to dispatch.
pub enum ProgramCallerExecStatus {
    Executed { return_code: u64, account_datas: AccountMap },
    CPI {
        program_id: Pubkey,
        instruction: Vec<u8>,
        account_metas: Vec<BorshAccountMeta>,
        account_datas: AccountMap,
        call_depth: u8,
    },
}

/// An association from nonces to pending values (log buffers, completion
/// slots), with each nonce present at most once.
pub struct NonceMap<V> {
    entries: Vec<(u64, V)>,
}

impl<V> NonceMap<V> {
    pub closed spec fn key_seq(&self) -> Seq<u64> {
        self.entries@.map(|i: int, e: (u64, V)| e.0)
    }

    pub closed spec fn contains(&self, n: u64) -> bool {
        exists|i: int| 0 <= i < self.entries@.len() && self.entries@[i].0 == n
    }

    pub closed spec fn spec_get(&self, n: u64) -> V {
        self.entries@[choose|i: int| 0 <= i < self.entries@.len() && self.entries@[i].0 == n].1
    }

    #[verifier::type_invariant]
    spec fn wf(&self) -> bool {
        forall|i: int, j: int|
            0 <= i < j < self.entries@.len() ==> self.entries@[i].0 != self.entries@[j].0
    }

    pub fn new() -> (r: NonceMap<V>)
        ensures
            forall|n: u64| !r.contains(n),
    {
        NonceMap { entries: Vec::new() }
    }

    fn index_of(&self, n: u64) -> (r: Option<usize>)
        ensures
            match r {
                Some(i) => i < self.entries@.len() && self.entries@[i as int].0 == n
                    && self.contains(n),
                None => !self.contains(n),
            },
    {
        let mut i: usize = 0;
        while i < self.entries.len()
            invariant
                i <= self.entries@.len(),
                forall|k: int| 0 <= k < i ==> self.entries@[k].0 != n,
            decreases self.entries@.len() - i,
        {
            if self.entries[i].0 == n {
                return Some(i);
            }
            i = i + 1;
        }
        None
    }

    pub fn contains_key(&self, n: u64) -> (r: bool)
        ensures
            r == self.contains(n),
    {
        self.index_of(n).is_some()
    }

    /// Insert or replace the value under `n`.
    pub fn set(&mut self, n: u64, v: V)
        ensures
            final(self).contains(n),
            final(self).spec_get(n) == v,
            forall|m: u64| m != n ==> final(self).contains(m) == old(self).contains(m),
            forall|m: u64|
                m != n && old(self).contains(m) ==> final(self).spec_get(m) == old(self).spec_get(
                    m,
                ),
    {
        proof {
            use_type_invariant(&*self);
        }
        let mut es: Vec<(u64, V)> = Vec::new();
        core::mem::swap(&mut es, &mut self.entries);
        let mut i: usize = 0;
        let n_entries = es.len();
        let mut found: Option<usize> = None;
        while i < n_entries
            invariant
                i <= es@.len(),
                n_entries == es@.len(),
                match found {
                    Some(k) => k < i && es@[k as int].0 == n,
                    None => forall|k: int| 0 <= k < i ==> es@[k].0 != n,
                },
        decreases es@.len() - i,
        {
            if es[i].0 == n {
                found = Some(i);
                proof {
                    assert(es@[i as int].0 == n);
                }
                i = n_entries;
            } else {
                i = i + 1;
            }
        }
        match found {
            Some(k) => {
                let _ = es.remove(k);
                es.insert(k, (n, v));
                proof {
                    assert(es@ =~= old(self).entries@.update(k as int, (n, v)));
                }
            },
            None => {
                es.push((n, v));
            },
        }
        core::mem::swap(&mut es, &mut self.entries);
        proof {
            self.lemma_set_post(old(self), n, v);
        }
    }

    proof fn lemma_set_post(&self, pre: &NonceMap<V>, n: u64, v: V)
        requires
            forall|i: int, j: int|
                0 <= i < j < self.entries@.len() ==> self.entries@[i].0 != self.entries@[j].0,
            forall|i: int, j: int|
                0 <= i < j < pre.entries@.len() ==> pre.entries@[i].0 != pre.entries@[j].0,
            (exists|k: int|
                0 <= k < pre.entries@.len() && pre.entries@[k].0 == n && self.entries@
                    == pre.entries@.update(k, (n, v))) || (!pre.contains(n) && self.entries@
                == pre.entries@.push((n, v))),
        ensures
            self.contains(n),
            self.spec_get(n) == v,
            forall|m: u64| m != n ==> self.contains(m) == pre.contains(m),
            forall|m: u64| m != n && pre.contains(m) ==> self.spec_get(m) == pre.spec_get(m),
    {
        if exists|k: int|
            0 <= k < pre.entries@.len() && pre.entries@[k].0 == n && self.entries@
                == pre.entries@.update(k, (n, v)) {
            let k = choose|k: int|
                0 <= k < pre.entries@.len() && pre.entries@[k].0 == n && self.entries@
                    == pre.entries@.update(k, (n, v));
            assert(self.entries@[k].0 == n);
            let k2 = choose|i: int| 0 <= i < self.entries@.len() && self.entries@[i].0 == n;
            assert(k2 == k);
            assert forall|m: u64| m != n implies self.contains(m) == pre.contains(m) by {
                if self.contains(m) {
                    let w = choose|w: int|
                        0 <= w < self.entries@.len() && self.entries@[w].0 == m;
                    assert(pre.entries@[w].0 == m);
                }
                if pre.contains(m) {
                    let w = choose|w: int| 0 <= w < pre.entries@.len() && pre.entries@[w].0 == m;
                    assert(self.entries@[w].0 == m);
                }
            }
            assert forall|m: u64| m != n && pre.contains(m) implies self.spec_get(m)
                == pre.spec_get(m) by {
                let w = choose|w: int| 0 <= w < pre.entries@.len() && pre.entries@[w].0 == m;
                assert(self.entries@[w].0 == m);
                let a = choose|i: int| 0 <= i < self.entries@.len() && self.entries@[i].0 == m;
                let b = choose|i: int| 0 <= i < pre.entries@.len() && pre.entries@[i].0 == m;
                assert(a == w && b == w);
            }
        } else {
            assert(self.entries@[self.entries@.len() - 1].0 == n);
            let k2 = choose|i: int| 0 <= i < self.entries@.len() && self.entries@[i].0 == n;
            assert(k2 == self.entries@.len() - 1);
            assert forall|m: u64| m != n implies self.contains(m) == pre.contains(m) by {
                if self.contains(m) {
                    let w = choose|w: int|
                        0 <= w < self.entries@.len() && self.entries@[w].0 == m;
                    assert(w < self.entries@.len() - 1);
                    assert(pre.entries@[w].0 == m);
                }
                if pre.contains(m) {
                    let w = choose|w: int| 0 <= w < pre.entries@.len() && pre.entries@[w].0 == m;
                    assert(self.entries@[w].0 == m);
                }
            }
            assert forall|m: u64| m != n && pre.contains(m) implies self.spec_get(m)
                == pre.spec_get(m) by {
                let w = choose|w: int| 0 <= w < pre.entries@.len() && pre.entries@[w].0 == m;
                assert(self.entries@[w].0 == m);
                let a = choose|i: int| 0 <= i < self.entries@.len() && self.entries@[i].0 == m;
                let b = choose|i: int| 0 <= i < pre.entries@.len() && pre.entries@[i].0 == m;
                assert(a == w && b == w);
            }
        }
    }

    /// Remove and return the value under `n`.
    pub fn take(&mut self, n: u64) -> (r: Option<V>)
        ensures
            !final(self).contains(n),
            (r is None) ==> *final(self) == *old(self),
            match r {
                Some(v) => old(self).contains(n) && v == old(self).spec_get(n),
                None => !old(self).contains(n),
            },
            forall|m: u64| m != n ==> final(self).contains(m) == old(self).contains(m),
            forall|m: u64|
                m != n && old(self).contains(m) ==> final(self).spec_get(m) == old(self).spec_get(
                    m,
                ),
    {
        proof {
            use_type_invariant(&*self);
        }
        match self.index_of(n) {
            Some(i) => {
                let mut es: Vec<(u64, V)> = Vec::new();
                core::mem::swap(&mut es, &mut self.entries);
                let (_, v) = es.remove(i);
                core::mem::swap(&mut es, &mut self.entries);
                proof {
                    let pre = old(self).entries@;
                    assert(self.entries@ =~= pre.remove(i as int));
                    let k = choose|k: int| 0 <= k < pre.len() && pre[k].0 == n;
                    assert(k == i);
                    assert(v == old(self).spec_get(n));
                    assert forall|m: u64| m != n implies self.contains(m) == old(self).contains(
                        m,
                    ) by {
                        if self.contains(m) {
                            let w = choose|w: int|
                                0 <= w < self.entries@.len() && self.entries@[w].0 == m;
                            if w < i {
                                assert(pre[w].0 == m);
                            } else {
                                assert(pre[w + 1].0 == m);
                            }
                        }
                        if old(self).contains(m) {
                            let w = choose|w: int| 0 <= w < pre.len() && pre[w].0 == m;
                            if w < i {
                                assert(self.entries@[w].0 == m);
                            } else {
                                assert(w > i);
                                assert(self.entries@[w - 1].0 == m);
                            }
                        }
                    }
                    assert forall|m: u64| m != n && old(self).contains(m) implies self.spec_get(m)
                        == old(self).spec_get(m) by {
                        let w = choose|w: int| 0 <= w < pre.len() && pre[w].0 == m;
                        let a = choose|i2: int|
                            0 <= i2 < self.entries@.len() && self.entries@[i2].0 == m;
                        let b = choose|i2: int| 0 <= i2 < pre.len() && pre[i2].0 == m;
                        assert(b == w);
                        if w < i {
                            assert(self.entries@[w].0 == m);
                            assert(a == w);
                        } else {
                            assert(w > i);
                            assert(self.entries@[w - 1].0 == m);
                            assert(a == w - 1);
                        }
                    }
                    if self.contains(n) {
                        let w = choose|w: int|
                            0 <= w < self.entries@.len() && self.entries@[w].0 == n;
                        if w < i {
                            assert(pre[w].0 == n);
                        } else {
                            assert(pre[w + 1].0 == n);
                        }
                        assert(false);
                    }
                }
                Some(v)
            },
            None => None,
        }
    }
}

/// The validator's map from program ids to connected channels, identified
/// here by opaque handles. A re-registration replaces the prior channel.
pub struct ProgramRegistry {
    entries: Vec<(Pubkey, u64)>,
}

impl ProgramRegistry {
    #[verifier::type_invariant]
    spec fn wf(&self) -> bool {
        forall|i: int, j: int|
            0 <= i < j < self.entries@.len() ==> self.entries@[i].0 != self.entries@[j].0
    }

    pub closed spec fn contains(&self, pk: Pubkey) -> bool {
        exists|i: int| 0 <= i < self.entries@.len() && self.entries@[i].0 == pk
    }

    pub closed spec fn spec_channel(&self, pk: Pubkey) -> u64 {
        self.entries@[choose|i: int| 0 <= i < self.entries@.len() && self.entries@[i].0 == pk].1
    }

    pub fn new() -> (r: ProgramRegistry)
        ensures
            forall|pk: Pubkey| !r.contains(pk),
    {
        ProgramRegistry { entries: Vec::new() }
    }

    /// Register a child program's channel under its id; a duplicate
    /// registration for the same id replaces the prior channel.
    pub fn register(&mut self, pk: Pubkey, channel: u64)
        ensures
            final(self).contains(pk),
            final(self).spec_channel(pk) == channel,
            forall|q: Pubkey| q != pk ==> final(self).contains(q) == old(self).contains(q),
            forall|q: Pubkey|
                q != pk && old(self).contains(q) ==> final(self).spec_channel(q) == old(
                    self,
                ).spec_channel(q),
    {
        proof {
            use_type_invariant(&*self);
        }
        let mut es: Vec<(Pubkey, u64)> = Vec::new();
        core::mem::swap(&mut es, &mut self.entries);
        let mut i: usize = 0;
        let n_entries = es.len();
        let mut found: Option<usize> = None;
        while i < n_entries
            invariant
                i <= es@.len(),
                n_entries == es@.len(),
                match found {
                    Some(k) => k < i && es@[k as int].0 == pk,
                    None => forall|k: int| 0 <= k < i ==> es@[k].0 != pk,
                },
            decreases es@.len() - i,
        {
            if es[i].0 == pk {
                found = Some(i);
                i = n_entries;
            } else {
                i = i + 1;
            }
        }
        match found {
            Some(k) => {
                let _ = es.remove(k);
                es.insert(k, (pk, channel));
                proof {
                    assert(es@ =~= old(self).entries@.update(k as int, (pk, channel)));
                }
            },
            None => {
                es.push((pk, channel));
            },
        }
        core::mem::swap(&mut es, &mut self.entries);
        proof {
            self.lemma_register_post(old(self), pk, channel);
        }
    }

    proof fn lemma_register_post(&self, pre: &ProgramRegistry, pk: Pubkey, channel: u64)
        requires
            forall|i: int, j: int|
                0 <= i < j < self.entries@.len() ==> self.entries@[i].0 != self.entries@[j].0,
            forall|i: int, j: int|
                0 <= i < j < pre.entries@.len() ==> pre.entries@[i].0 != pre.entries@[j].0,
            (exists|k: int|
                0 <= k < pre.entries@.len() && pre.entries@[k].0 == pk && self.entries@
                    == pre.entries@.update(k, (pk, channel))) || (!pre.contains(pk)
                && self.entries@ == pre.entries@.push((pk, channel))),
        ensures
            self.contains(pk),
            self.spec_channel(pk) == channel,
            forall|q: Pubkey| q != pk ==> self.contains(q) == pre.contains(q),
            forall|q: Pubkey|
                q != pk && pre.contains(q) ==> self.spec_channel(q) == pre.spec_channel(q),
    {
        if exists|k: int|
            0 <= k < pre.entries@.len() && pre.entries@[k].0 == pk && self.entries@
                == pre.entries@.update(k, (pk, channel)) {
            let k = choose|k: int|
                0 <= k < pre.entries@.len() && pre.entries@[k].0 == pk && self.entries@
                    == pre.entries@.update(k, (pk, channel));
            assert(self.entries@[k].0 == pk);
            let k2 = choose|i: int| 0 <= i < self.entries@.len() && self.entries@[i].0 == pk;
            assert(k2 == k);
            assert forall|q: Pubkey| q != pk implies self.contains(q) == pre.contains(q) by {
                if self.contains(q) {
                    let w = choose|w: int|
                        0 <= w < self.entries@.len() && self.entries@[w].0 == q;
                    assert(pre.entries@[w].0 == q);
                }
                if pre.contains(q) {
                    let w = choose|w: int| 0 <= w < pre.entries@.len() && pre.entries@[w].0 == q;
                    assert(self.entries@[w].0 == q);
                }
            }
            assert forall|q: Pubkey| q != pk && pre.contains(q) implies self.spec_channel(q)
                == pre.spec_channel(q) by {
                let w = choose|w: int| 0 <= w < pre.entries@.len() && pre.entries@[w].0 == q;
                assert(self.entries@[w].0 == q);
                let a = choose|i: int| 0 <= i < self.entries@.len() && self.entries@[i].0 == q;
                let b = choose|i: int| 0 <= i < pre.entries@.len() && pre.entries@[i].0 == q;
                assert(a == w && b == w);
            }
        } else {
            assert(self.entries@[self.entries@.len() - 1].0 == pk);
            let k2 = choose|i: int| 0 <= i < self.entries@.len() && self.entries@[i].0 == pk;
            assert(k2 == self.entries@.len() - 1);
            assert forall|q: Pubkey| q != pk implies self.contains(q) == pre.contains(q) by {
                if self.contains(q) {
                    let w = choose|w: int|
                        0 <= w < self.entries@.len() && self.entries@[w].0 == q;
                    assert(w < self.entries@.len() - 1);
                    assert(pre.entries@[w].0 == q);
                }
                if pre.contains(q) {
                    let w = choose|w: int| 0 <= w < pre.entries@.len() && pre.entries@[w].0 == q;
                    assert(self.entries@[w].0 == q);
                }
            }
            assert forall|q: Pubkey| q != pk && pre.contains(q) implies self.spec_channel(q)
                == pre.spec_channel(q) by {
                let w = choose|w: int| 0 <= w < pre.entries@.len() && pre.entries@[w].0 == q;
                assert(self.entries@[w].0 == q);
                let a = choose|i: int| 0 <= i < self.entries@.len() && self.entries@[i].0 == q;
                let b = choose|i: int| 0 <= i < pre.entries@.len() && pre.entries@[i].0 == q;
                assert(a == w && b == w);
            }
        }
    }

    /// The channel handle registered for `pk`, if any.
    pub fn channel_of(&self, pk: &Pubkey) -> (r: Option<u64>)
        ensures
            match r {
                Some(c) => self.contains(*pk) && c == self.spec_channel(*pk),
                None => !self.contains(*pk),
            },
    {
        proof {
            use_type_invariant(self);
        }
        let mut i: usize = 0;
        while i < self.entries.len()
            invariant
                i <= self.entries@.len(),
                forall|k: int| 0 <= k < i ==> self.entries@[k].0 != *pk,
            decreases self.entries@.len() - i,
        {
            if self.entries[i].0 == *pk {
                proof {
                    use_type_invariant(self);
                    let k = choose|k: int|
                        0 <= k < self.entries@.len() && self.entries@[k].0 == *pk;
                    assert(k == i);
                }
                return Some(self.entries[i].1);
            }
            i = i + 1;
        }
        None
    }
}

/// Whether `pk` names a runnable program: the built-in system program or a
/// registered child.
pub fn has_program_id(registry: &ProgramRegistry, pk: &Pubkey) -> (r: bool)
    ensures
        r == (*pk == Pubkey::spec_default() || registry.contains(*pk)),
{
    if *pk == Pubkey::zeroed() {
        return true;
    }
    registry.channel_of(pk).is_some()
}

/// Route one drained child frame: a log line joins its nonce's buffer, a
/// completion or nested invocation fills its nonce's slot.
pub fn route_message(
    msg: BokkenRuntimeMessage,
    exec_logs: &mut NonceMap<Vec<String>>,
    exec_results: &mut NonceMap<ProgramCallerExecStatus>,
)
    ensures
        match msg {
            BokkenRuntimeMessage::Log { nonce, message } => *final(exec_results) == *old(exec_results) && (old(exec_logs).contains(nonce) ==> final(exec_logs).contains(nonce) && final(exec_logs).spec_get(nonce)@.len() == old(exec_logs).spec_get(nonce)@.len() + 1 && final(exec_logs).spec_get(nonce)@.last() == message) && (!old(exec_logs).contains(nonce) ==> *final(exec_logs) == *old(exec_logs)),
            BokkenRuntimeMessage::Executed { nonce, .. } => *final(exec_logs) == *old(exec_logs)
                && final(exec_results).contains(nonce) && (final(exec_results).spec_get(
                nonce,
            ) matches ProgramCallerExecStatus::Executed { return_code, account_datas }),
            BokkenRuntimeMessage::CrossProgramInvoke { nonce, .. } => *final(exec_logs) == *old(exec_logs) && final(exec_results).contains(nonce) && (final(exec_results).spec_get(
                nonce,
            ) matches ProgramCallerExecStatus::CPI { .. }),
        },
        forall|m: u64|
            (match msg {
                BokkenRuntimeMessage::Log { .. } => true,
                _ => m != msg.nonce(),
            }) ==> final(exec_results).contains(m) == old(exec_results).contains(m) && (old(exec_results).contains(m) ==> final(exec_results).spec_get(m) == old(exec_results).spec_get(m)),
{
    match msg {
        BokkenRuntimeMessage::Log { nonce, message } => {
            match exec_logs.take(nonce) {
                Some(mut buf) => {
                    buf.push(message);
                    exec_logs.set(nonce, buf);
                },
                None => {},
            }
        },
        BokkenRuntimeMessage::Executed { nonce, return_code, account_datas } => {
            exec_results.set(
                nonce,
                ProgramCallerExecStatus::Executed { return_code, account_datas },
            );
        },
        BokkenRuntimeMessage::CrossProgramInvoke {
            nonce,
            program_id,
            instruction,
            account_metas,
            account_datas,
            call_depth,
        } => {
            exec_results.set(
                nonce,
                ProgramCallerExecStatus::CPI {
                    program_id,
                    instruction,
                    account_metas,
                    account_datas,
                    call_depth,
                },
            );
        },
    }
}


/// Copy a log buffer; the copy's lines equal the source's.
pub fn duplicate_logs(logs: &Vec<String>) -> (r: Vec<String>)
    ensures
        r@ == logs@,
{
    let mut r: Vec<String> = Vec::new();
    let mut i: usize = 0;
    while i < logs.len()
        invariant
            i <= logs@.len(),
            r@ == logs@.take(i as int),
        decreases logs@.len() - i,
    {
        r.push(logs[i].clone());
        proof {
            assert(logs@.take(i + 1) =~= logs@.take(i as int).push(logs@[i as int]));
        }
        i = i + 1;
    }
    proof {
        assert(logs@.take(logs@.len() as int) =~= logs@);
    }
    r
}

/// Call the built-in program in-process, wrapping its output in the
/// standard invoke/success-or-returned log bookends. Every invocation
/// contributes exactly one opening and one terminal bookend.
pub fn call_native(
    program: &mut DebugSystemProgram,
    program_id: &Pubkey,
    instruction: Vec<u8>,
    account_metas: Vec<BorshAccountMeta>,
    account_datas: AccountMap,
    call_depth: u8,
) -> (r: (u64, Vec<String>, AccountMap))
    ensures
        r.1@.len() >= 2,
        r.1@[0]@ == spec_invoke_log(*program_id, call_depth),
        r.0 == 0 ==> r.1@.last()@ == spec_success_log(*program_id),
        r.0 != 0 ==> r.1@.last()@ == spec_returned_log(*program_id, r.0),
        (exists|ix: crate::system_program::SystemInstruction|
            {
                let spec = crate::system_program::spec_system_exec(
                    ix,
                    account_metas@,
                    account_datas@,
                );
                &&& #[trigger] crate::system_program::spec_encodes_prefix(instruction@, ix)
                &&& (match spec.0 {
                    Ok(_) => r.0 == 0,
                    Err(e) => r.0 == crate::account::spec_error_code(e),
                })
                &&& r.2@ == spec.1
            }) || (r.0 == crate::account::spec_error_code(ProgramError::InvalidInstructionData)
            && r.2@ == account_datas@ && (forall|ix: crate::system_program::SystemInstruction|
            !crate::system_program::spec_encodes_prefix(instruction@, ix))),
{
    program.clear_logs();
    program.logs.push(invoke_log(program_id, call_depth));
    let ghost l1 = program.logs@;
    let mut datas = account_datas;
    let code: u64 = match program.exec(instruction, account_metas, &mut datas) {
        Ok(_) => 0,
        Err(e) => e.to_code(),
    };
    proof {
        assert(program.logs@.subrange(0, 1) == l1);
        assert(program.logs@[0] == program.logs@.subrange(0, 1)[0]);
        assert(program.logs@[0]@ == spec_invoke_log(*program_id, call_depth));
    }
    let ghost l2 = program.logs@;
    if code == 0 {
        program.logs.push(success_log(program_id));
    } else {
        program.logs.push(returned_log(program_id, code));
    }
    proof {
        assert(program.logs@[0] == l2[0]);
    }
    let logs = duplicate_logs(&program.logs);
    (code, logs, datas)
}

/// What the validator does next for one waiting call.
pub enum CallStep {
    /// The invocation finished: hand back its code, logs and accounts.
    Done { return_code: u64, logs: Vec<String>, account_datas: AccountMap },
    /// The child asked for a nested invocation: dispatch it one level
    /// deeper, then answer on the same nonce.
    Cpi {
        nonce: u64,
        program_id: Pubkey,
        instruction: Vec<u8>,
        account_metas: Vec<BorshAccountMeta>,
        account_datas: AccountMap,
        call_depth: u8,
    },
}

/// Decide on a completed status for the call waiting on `nonce`. An
/// `Executed` status closes the call with the log bookends around the
/// buffered lines; a `CrossProgramInvoke` yields exactly one nested
/// dispatch, one level deeper, to be answered on the same nonce; no
/// completion is produced for it here, so the reply always precedes the
/// call's own `Done`.
pub fn handle_exec_status(
    status: ProgramCallerExecStatus,
    program_id: &Pubkey,
    call_depth: u8,
    nonce: u64,
    buffered_logs: Vec<String>,
) -> (r: Result<CallStep, BokkenError>)
    ensures
        match status {
            ProgramCallerExecStatus::Executed { return_code, account_datas } => (r matches Ok(
                CallStep::Done { return_code: rc, logs, account_datas: datas },
            ) && rc == return_code && datas == account_datas && logs@.len() == buffered_logs@.len()
                + 2 && logs@[0]@ == spec_invoke_log(*program_id, call_depth) && logs@.subrange(
                1,
                1 + buffered_logs@.len() as int,
            ) == buffered_logs@ && (return_code == 0 ==> logs@.last()@ == spec_success_log(
                *program_id,
            )) && (return_code != 0 ==> logs@.last()@ == spec_returned_log(
                *program_id,
                return_code,
            ))),
            ProgramCallerExecStatus::CPI {
                program_id: sub_pid,
                instruction: sub_ix,
                account_metas: sub_metas,
                account_datas: sub_datas,
                call_depth: sub_depth,
            } => {
                if sub_depth == u8::MAX {
                    r == (Result::<CallStep, BokkenError>::Err(BokkenError::ShouldNotHappen))
                } else {
                    r matches Ok(
                        CallStep::Cpi {
                            nonce: n2,
                            program_id: p2,
                            instruction: i2,
                            account_metas: m2,
                            account_datas: d2,
                            call_depth: c2,
                        },
                    ) && n2 == nonce && p2 == sub_pid && i2 == sub_ix && m2 == sub_metas && d2
                        == sub_datas && c2 == sub_depth + 1
                }
            },
        },
{
    match status {
        ProgramCallerExecStatus::Executed { return_code, account_datas } => {
            let mut logs: Vec<String> = Vec::new();
            logs.push(invoke_log(program_id, call_depth));
            let mut buffered = buffered_logs;
            logs.append(&mut buffered);
            if return_code == 0 {
                logs.push(success_log(program_id));
            } else {
                logs.push(returned_log(program_id, return_code));
            }
            proof {
                assert(logs@.subrange(1, 1 + buffered_logs@.len() as int) =~= buffered_logs@);
            }
            Ok(CallStep::Done { return_code, logs, account_datas })
        },
        ProgramCallerExecStatus::CPI {
            program_id: sub_pid,
            instruction: sub_ix,
            account_metas: sub_metas,
            account_datas: sub_datas,
            call_depth: sub_depth,
        } => {
            if sub_depth == u8::MAX {
                return Err(BokkenError::ShouldNotHappen);
            }
            Ok(
                CallStep::Cpi {
                    nonce,
                    program_id: sub_pid,
                    instruction: sub_ix,
                    account_metas: sub_metas,
                    account_datas: sub_datas,
                    call_depth: sub_depth + 1,
                },
            )
        },
    }
}

/// The frame that starts a remote invocation.
pub fn make_invoke_message(
    nonce: u64,
    program_id: Pubkey,
    instruction: Vec<u8>,
    account_metas: Vec<BorshAccountMeta>,
    account_datas: AccountMap,
    call_depth: u8,
) -> (r: BokkenValidatorMessage)
    ensures
        (r matches BokkenValidatorMessage::Invoke {
            nonce: n2,
            program_id: p2,
            instruction: i2,
            account_metas: m2,
            account_datas: d2,
            call_depth: c2,
        } && n2 == nonce && p2 == program_id && i2 == instruction && m2 == account_metas && d2
            == account_datas && c2 == call_depth),
{
    BokkenValidatorMessage::Invoke {
        nonce,
        program_id,
        instruction,
        account_metas,
        account_datas,
        call_depth,
    }
}

/// The answer to a nested invocation: exactly one reply, on the nonce the
/// `CrossProgramInvoke` carried.
pub fn make_cpi_reply(nonce: u64, return_code: u64, account_datas: AccountMap) -> (r:
    BokkenValidatorMessage)
    ensures
        (r matches BokkenValidatorMessage::CrossProgramInvokeResult {
            nonce: n2,
            return_code: c2,
            account_datas: d2,
        } && n2 == nonce && c2 == return_code && d2 == account_datas),
        r.nonce() == nonce,
{
    BokkenValidatorMessage::CrossProgramInvokeResult { nonce, return_code, account_datas }
}

} // verus!
