//! The commit-sequence verifier: a state machine over semantic events, seeded with
//! the last finalized header and the reserved state.
use vstd::prelude::*;

use crate::crypto::{ecdsa_valid, verify_signature};
use crate::encoding::{
    agenda_digest, digest_agenda, digest_header, header_digest, transactions_bytes,
    transactions_digest,
};
use crate::types::{
    bytes_equal, BlockHeader, Commit, FinalizationProof, Hash256, PublicKey, ReservedState,
    Transaction, TypedSignature, Validator,
};

verus! {

/// The reserved state as values: each validator's key and weight, and the quorum.
pub struct ReservedStateView {
    pub validators: Seq<(Seq<u8>, u64)>,
    pub quorum: u64,
}

impl View for ReservedState {
    type V = ReservedStateView;

    open spec fn view(&self) -> ReservedStateView {
        ReservedStateView {
            validators: self.validators@.map_values(|v: Validator| (v.key.key@, v.weight)),
            quorum: self.quorum,
        }
    }
}

/// Whether some signature in `sigs` is by `key` and valid over `message`.
pub open spec fn signed_by(message: Seq<u8>, sigs: Seq<TypedSignature>, key: Seq<u8>) -> bool {
    exists|j: int|
        0 <= j < sigs.len() && #[trigger] sigs[j].signer.key@ == key && ecdsa_valid(
            message,
            sigs[j].signature@,
            key,
        )
}

/// The total weight of the validators that signed `message`; each counts once.
pub open spec fn signed_weight(
    message: Seq<u8>,
    sigs: Seq<TypedSignature>,
    validators: Seq<(Seq<u8>, u64)>,
) -> int
    decreases validators.len(),
{
    if validators.len() == 0 {
        0
    } else {
        signed_weight(message, sigs, validators.drop_last()) + if signed_by(
            message,
            sigs,
            validators.last().0,
        ) {
            validators.last().1 as int
        } else {
            0
        }
    }
}

/// Whether the signatures over `message` reach the quorum of the reserved state.
pub open spec fn quorum_reached(
    rs: ReservedStateView,
    message: Seq<u8>,
    sigs: Seq<TypedSignature>,
) -> bool {
    signed_weight(message, sigs, rs.validators) >= rs.quorum
}

proof fn lemma_signed_weight_monotone(
    message: Seq<u8>,
    sigs: Seq<TypedSignature>,
    validators: Seq<(Seq<u8>, u64)>,
    i: int,
)
    requires
        0 <= i <= validators.len(),
    ensures
        signed_weight(message, sigs, validators.subrange(0, i)) <= signed_weight(
            message,
            sigs,
            validators,
        ),
    decreases validators.len(),
{
    if i < validators.len() {
        lemma_signed_weight_monotone(message, sigs, validators.drop_last(), i);
        assert(validators.drop_last().subrange(0, i) =~= validators.subrange(0, i));
    } else {
        assert(validators.subrange(0, i) =~= validators);
    }
}

fn has_signature(message: &Hash256, sigs: &Vec<TypedSignature>, key: &PublicKey) -> (r: bool)
    ensures
        r == signed_by(message.hash@, sigs@, key.key@),
{
    let mut j: usize = 0;
    while j < sigs.len()
        invariant
            j <= sigs@.len(),
            forall|k: int|
                0 <= k < j ==> !(#[trigger] sigs@[k].signer.key@ == key.key@ && ecdsa_valid(
                    message.hash@,
                    sigs@[k].signature@,
                    key.key@,
                )),
        decreases sigs@.len() - j,
    {
        let s = &sigs[j];
        if bytes_equal(s.signer.key.as_slice(), key.key.as_slice()) && verify_signature(
            message,
            s.signature.as_slice(),
            key.key.as_slice(),
        ) {
            return true;
        }
        j = j + 1;
    }
    false
}

/// Whether the signatures over `message` reach the quorum of `rs`.
pub fn reaches_quorum(rs: &ReservedState, message: &Hash256, sigs: &Vec<TypedSignature>) -> (r:
    bool)
    ensures
        r == quorum_reached(rs@, message.hash@, sigs@),
{
    if rs.quorum == 0 {
        proof {
            lemma_signed_weight_monotone(message.hash@, sigs@, rs@.validators, 0);
            assert(rs@.validators.subrange(0, 0).len() == 0);
        }
        return true;
    }
    let ghost vals = rs@.validators;
    let mut acc: u128 = 0;
    let mut i: usize = 0;
    while i < rs.validators.len()
        invariant
            i <= rs.validators@.len(),
            vals == rs@.validators,
            vals.len() == rs.validators@.len(),
            acc == signed_weight(message.hash@, sigs@, vals.subrange(0, i as int)),
            acc < rs.quorum,
        decreases rs.validators@.len() - i,
    {
        let v = &rs.validators[i];
        proof {
            assert(vals.subrange(0, i + 1).drop_last() =~= vals.subrange(0, i as int));
            assert(vals[i as int] == (v.key.key@, v.weight));
        }
        if has_signature(message, sigs, &v.key) {
            acc = acc + v.weight as u128;
        }
        i = i + 1;
        if acc >= rs.quorum as u128 {
            proof {
                lemma_signed_weight_monotone(message.hash@, sigs@, vals, i as int);
            }
            return true;
        }
    }
    proof {
        assert(vals.subrange(0, i as int) =~= vals);
    }
    false
}

/// Whether `proof` finalizes `header` under the reserved state `rs`.
pub fn verify_finalization_proof(
    header: &BlockHeader,
    proof: &FinalizationProof,
    rs: &ReservedState,
) -> (r: bool)
    ensures
        r == quorum_reached(rs@, header_digest(*header), proof.signatures@),
{
    let digest = digest_header(header);
    reaches_quorum(rs, &digest, &proof.signatures)
}


/// Where the verifier stands within the lifecycle of one block.
#[derive(Clone, Copy, Debug, PartialEq, Eq, Structural)]
pub enum Phase {
    /// Ordinary transactions are accepted.
    Transactions,
    /// Privileged transactions have begun; only they or an agenda may follow.
    ExtraAgenda,
    /// An agenda has been proposed and awaits its proof.
    AgendaOpen,
    /// The agenda has been approved; the block may follow.
    AgendaApproved,
}

/// Why the verifier rejected an event.
#[derive(Clone, Copy, Debug, PartialEq, Eq, Structural)]
pub enum VerificationError {
    /// The event is not allowed in the current phase.
    PhaseViolation,
    /// The event's height is not the one after the last block.
    HeightMismatch,
    /// A digest that the event carries does not match the one computed.
    HashMismatch,
    /// The signatures do not reach the quorum of the reserved state.
    InsufficientSignatures,
}

/// The verifier's state as values.
pub struct VerifierView {
    /// Height of the last accepted block.
    pub height: u64,
    /// Digest of the last accepted block header.
    pub header_digest: Seq<u8>,
    pub reserved_state: ReservedStateView,
    pub phase: Phase,
    /// The transactions accepted since the last block, in order.
    pub transactions: Seq<Transaction>,
    /// The digest of the agenda record once one is open or approved.
    pub agenda: Option<Seq<u8>>,
}

/// The state in which a run starts from a finalized header.
pub open spec fn initial_view(header: BlockHeader, rs: ReservedStateView) -> VerifierView {
    VerifierView {
        height: header.height,
        header_digest: header_digest(header),
        reserved_state: rs,
        phase: Phase::Transactions,
        transactions: Seq::empty(),
        agenda: None,
    }
}

pub open spec fn is_next_height(s: VerifierView, h: u64) -> bool {
    h as int == s.height as int + 1
}

/// One transition of the verifier: the next state, or why the event is rejected.
#[verifier::opaque]
pub open spec fn next_view(s: VerifierView, c: Commit) -> Result<VerifierView, VerificationError> {
    match c {
        Commit::Transaction(t) => if s.phase == Phase::Transactions {
            Ok(VerifierView { transactions: s.transactions.push(t), ..s })
        } else {
            Err(VerificationError::PhaseViolation)
        },
        Commit::ExtraAgendaTransaction(_) => if s.phase == Phase::Transactions || s.phase
            == Phase::ExtraAgenda {
            Ok(VerifierView { phase: Phase::ExtraAgenda, ..s })
        } else {
            Err(VerificationError::PhaseViolation)
        },
        Commit::Agenda(a) => if !(s.phase == Phase::Transactions || s.phase
            == Phase::ExtraAgenda) {
            Err(VerificationError::PhaseViolation)
        } else if !is_next_height(s, a.height) {
            Err(VerificationError::HeightMismatch)
        } else if a.hash.hash@ != transactions_digest(a.height, s.transactions) {
            Err(VerificationError::HashMismatch)
        } else {
            Ok(VerifierView { phase: Phase::AgendaOpen, agenda: Some(agenda_digest(a)), ..s })
        },
        Commit::AgendaProof(p) => if s.phase != Phase::AgendaOpen {
            Err(VerificationError::PhaseViolation)
        } else if !is_next_height(s, p.height) {
            Err(VerificationError::HeightMismatch)
        } else if s.agenda != Some(p.agenda_hash.hash@) {
            Err(VerificationError::HashMismatch)
        } else if !quorum_reached(s.reserved_state, p.agenda_hash.hash@, p.proof@) {
            Err(VerificationError::InsufficientSignatures)
        } else {
            Ok(VerifierView { phase: Phase::AgendaApproved, ..s })
        },
        Commit::Block(h, rs) => if s.phase != Phase::AgendaApproved {
            Err(VerificationError::PhaseViolation)
        } else if !is_next_height(s, h.height) {
            Err(VerificationError::HeightMismatch)
        } else if h.previous_hash.hash@ != s.header_digest || s.agenda != Some(
            h.agenda_hash.hash@,
        ) {
            Err(VerificationError::HashMismatch)
        } else {
            Ok(
                VerifierView {
                    height: h.height,
                    header_digest: header_digest(h),
                    reserved_state: match rs {
                        Some(r) => r@,
                        None => s.reserved_state,
                    },
                    phase: Phase::Transactions,
                    transactions: Seq::empty(),
                    agenda: None,
                },
            )
        },
        Commit::Genesis(_) => Err(VerificationError::PhaseViolation),
    }
}

/// The state after a sequence of events, or the first rejection.
pub open spec fn run_view(s: VerifierView, events: Seq<Commit>) -> Result<
    VerifierView,
    VerificationError,
>
    decreases events.len(),
{
    if events.len() == 0 {
        Ok(s)
    } else {
        match run_view(s, events.drop_last()) {
            Ok(t) => next_view(t, events.last()),
            Err(e) => Err(e),
        }
    }
}

fn clone_reserved_state(rs: &ReservedState) -> (r: ReservedState)
    ensures
        r@ == rs@,
{
    let mut validators: Vec<Validator> = Vec::new();
    let mut i: usize = 0;
    while i < rs.validators.len()
        invariant
            i <= rs.validators@.len(),
            validators@.len() == i,
            forall|j: int|
                0 <= j < i ==> (#[trigger] validators@[j]).key.key@ == rs.validators@[j].key.key@
                    && validators@[j].weight == rs.validators@[j].weight,
        decreases rs.validators@.len() - i,
    {
        let v = &rs.validators[i];
        let key = v.key.key.clone();
        proof {
            assert(key@ =~= v.key.key@);
        }
        validators.push(Validator { key: PublicKey { key }, weight: v.weight });
        i = i + 1;
    }
    let r = ReservedState { validators, quorum: rs.quorum };
    proof {
        assert(r@.validators =~= rs@.validators);
    }
    r
}

/// Accepts a linear sequence of semantic events, checking each against the
/// lifecycle of a block, or rejects it.
pub struct CommitSequenceVerifier {
    height: u64,
    header_digest: Hash256,
    reserved_state: ReservedState,
    phase: Phase,
    /// The canonical bytes of the transactions accepted since the last block.
    collected: Vec<u8>,
    transactions: Ghost<Seq<Transaction>>,
    agenda: Option<Hash256>,
}

impl CommitSequenceVerifier {
    pub closed spec fn view(&self) -> VerifierView {
        VerifierView {
            height: self.height,
            header_digest: self.header_digest.hash@,
            reserved_state: self.reserved_state@,
            phase: self.phase,
            transactions: self.transactions@,
            agenda: match self.agenda {
                Some(h) => Some(h.hash@),
                None => None,
            },
        }
    }

    pub closed spec fn wf(&self) -> bool {
        &&& self.collected@ == transactions_bytes(self.transactions@)
        &&& (self.phase == Phase::AgendaOpen || self.phase == Phase::AgendaApproved) ==> {
            &&& self.agenda is Some
            &&& self.height < u64::MAX
        }
    }

    /// A verifier seeded with the last finalized header and the reserved state.
    pub fn new(header: &BlockHeader, reserved_state: &ReservedState) -> (r: Self)
        ensures
            r.wf(),
            r.view() == initial_view(*header, reserved_state@),
    {
        let digest = digest_header(header);
        let r = CommitSequenceVerifier {
            height: header.height,
            header_digest: digest,
            reserved_state: clone_reserved_state(reserved_state),
            phase: Phase::Transactions,
            collected: Vec::new(),
            transactions: Ghost(Seq::empty()),
            agenda: None,
        };
        proof {
            assert(r.collected@ =~= transactions_bytes(Seq::empty()));
        }
        r
    }

    /// The current phase.
    pub fn phase(&self) -> (r: Phase)
        ensures
            r == self.view().phase,
    {
        self.phase
    }

    /// The height of the last accepted block.
    pub fn height(&self) -> (r: u64)
        ensures
            r == self.view().height,
    {
        self.height
    }

    /// The digest of the last accepted block header.
    pub fn header_digest(&self) -> (r: Hash256)
        ensures
            r.hash@ == self.view().header_digest,
    {
        self.header_digest
    }

    /// The digest of the open or approved agenda, if any.
    pub fn agenda_digest(&self) -> (r: Option<Hash256>)
        requires
            self.wf(),
        ensures
            self.view().phase == Phase::AgendaApproved ==> r is Some && self.view().height
                < u64::MAX,
            match r {
                Some(h) => self.view().agenda == Some(h.hash@),
                None => self.view().agenda is None,
            },
    {
        self.agenda
    }

    fn next_height_is(&self, h: u64) -> (r: bool)
        ensures
            r == is_next_height(self.view(), h),
    {
        self.height < u64::MAX && h == self.height + 1
    }

    fn agenda_is(&self, digest: &Hash256) -> (r: bool)
        ensures
            r == (self.view().agenda == Some(digest.hash@)),
    {
        match &self.agenda {
            Some(a) => a.same(digest),
            None => false,
        }
    }

    /// Applies one event: on success the state moves as `next_view` says; on a
    /// rejection the state is left as it was.
    pub fn apply_commit(&mut self, commit: &Commit) -> (r: Result<(), VerificationError>)
        requires
            old(self).wf(),
        ensures
            final(self).wf(),
            match next_view(old(self).view(), *commit) {
                Ok(v) => r is Ok && final(self).view() == v,
                Err(e) => r == Err::<(), VerificationError>(e) && final(self).view() == old(
                    self,
                ).view(),
            },
    {
        proof {
            reveal(next_view);
        }
        match commit {
            Commit::Transaction(t) => {
                if self.phase != Phase::Transactions {
                    return Err(VerificationError::PhaseViolation);
                }
                crate::encoding::push_transaction(&mut self.collected, t);
                let ghost txs = self.transactions@;
                self.transactions = Ghost(txs.push(*t));
                proof {
                    assert(self.transactions@.drop_last() =~= txs);
                }
                Ok(())
            },
            Commit::ExtraAgendaTransaction(_) => {
                if !(self.phase == Phase::Transactions || self.phase == Phase::ExtraAgenda) {
                    return Err(VerificationError::PhaseViolation);
                }
                self.phase = Phase::ExtraAgenda;
                Ok(())
            },
            Commit::Agenda(a) => {
                if !(self.phase == Phase::Transactions || self.phase == Phase::ExtraAgenda) {
                    return Err(VerificationError::PhaseViolation);
                }
                if !self.next_height_is(a.height) {
                    return Err(VerificationError::HeightMismatch);
                }
                let expected = crate::encoding::digest_collected(a.height, &self.collected);
                if !expected.same(&a.hash) {
                    return Err(VerificationError::HashMismatch);
                }
                let d = digest_agenda(a);
                self.agenda = Some(d);
                self.phase = Phase::AgendaOpen;
                Ok(())
            },
            Commit::AgendaProof(p) => {
                if self.phase != Phase::AgendaOpen {
                    return Err(VerificationError::PhaseViolation);
                }
                if !self.next_height_is(p.height) {
                    return Err(VerificationError::HeightMismatch);
                }
                if !self.agenda_is(&p.agenda_hash) {
                    return Err(VerificationError::HashMismatch);
                }
                if !reaches_quorum(&self.reserved_state, &p.agenda_hash, &p.proof) {
                    return Err(VerificationError::InsufficientSignatures);
                }
                self.phase = Phase::AgendaApproved;
                Ok(())
            },
            Commit::Block(h, rs) => {
                if self.phase != Phase::AgendaApproved {
                    return Err(VerificationError::PhaseViolation);
                }
                if !self.next_height_is(h.height) {
                    return Err(VerificationError::HeightMismatch);
                }
                if !h.previous_hash.same(&self.header_digest) || !self.agenda_is(&h.agenda_hash) {
                    return Err(VerificationError::HashMismatch);
                }
                let digest = digest_header(h);
                self.height = h.height;
                self.header_digest = digest;
                match rs {
                    Some(r) => {
                        self.reserved_state = clone_reserved_state(r);
                    },
                    None => {},
                }
                self.phase = Phase::Transactions;
                self.collected = Vec::new();
                self.transactions = Ghost(Seq::empty());
                self.agenda = None;
                proof {
                    assert(self.collected@ =~= transactions_bytes(Seq::empty()));
                }
                Ok(())
            },
            Commit::Genesis(_) => Err(VerificationError::PhaseViolation),
        }
    }
}

impl CommitSequenceVerifier {
    /// Applies the events in order and stops at the first rejection, which it returns
    /// with the index of the rejected event.
    pub fn apply_all(&mut self, events: &Vec<Commit>) -> (r: Result<(), (usize, VerificationError)>)
        requires
            old(self).wf(),
        ensures
            final(self).wf(),
            match run_view(old(self).view(), events@) {
                Ok(v) => r is Ok && final(self).view() == v,
                Err(e) => r is Err && r->Err_0.1 == e && r->Err_0.0 < events@.len(),
            },
    {
        let ghost start = self.view();
        let mut i: usize = 0;
        while i < events.len()
            invariant
                i <= events@.len(),
                start == old(self).view(),
                self.wf(),
                run_view(start, events@.subrange(0, i as int)) == Ok::<
                    VerifierView,
                    VerificationError,
                >(self.view()),
            decreases events@.len() - i,
        {
            proof {
                assert(events@.subrange(0, i + 1).drop_last() =~= events@.subrange(0, i as int));
            }
            let ghost before = self.view();
            let res = self.apply_commit(&events[i]);
            proof {
                assert(events@.subrange(0, i + 1).last() == events@[i as int]);
            }
            match res {
                Ok(()) => {},
                Err(e) => {
                    proof {
                        assert(next_view(before, events@[i as int]) == Err::<VerifierView, VerificationError>(e));
                        assert(run_view(start, events@.subrange(0, i + 1)) == Err::<VerifierView, VerificationError>(e));
                        lemma_run_rejected_prefix(start, events@, i + 1);
                        assert(run_view(start, events@) == Err::<VerifierView, VerificationError>(e));
                    }
                    return Err((i, e));
                },
            }
            i = i + 1;
        }
        proof {
            assert(events@.subrange(0, events@.len() as int) =~= events@);
        }
        Ok(())
    }
}

proof fn lemma_run_rejected_prefix(s: VerifierView, events: Seq<Commit>, i: int)
    requires
        0 <= i <= events.len(),
        run_view(s, events.subrange(0, i)) is Err,
    ensures
        run_view(s, events) == run_view(s, events.subrange(0, i)),
    decreases events.len(),
{
    if i < events.len() {
        assert(events.drop_last().subrange(0, i) =~= events.subrange(0, i));
        lemma_run_rejected_prefix(s, events.drop_last(), i);
    } else {
        assert(events.subrange(0, i) =~= events);
    }
}

/// Determinism of the verifier: two runs seeded with the same header and the same
/// reserved state, over the same events, end in the same state or the same rejection.
pub proof fn lemma_verifier_deterministic(
    header: BlockHeader,
    rs1: ReservedState,
    rs2: ReservedState,
    events: Seq<Commit>,
)
    requires
        rs1@ == rs2@,
    ensures
        run_view(initial_view(header, rs1@), events) == run_view(
            initial_view(header, rs2@),
            events,
        ),
{
}

} // verus!
