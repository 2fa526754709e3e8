//! The decisions of the distributed repository: which branches to keep, delete,
//! create or move, which commits to verify, and when the `finalized` branch moves.
//! The caller performs what is decided on the raw repository.
use vstd::prelude::*;

use crate::branches::{
    family_branch_name, family_index_spec, family_name, is_reserved, is_reserved_spec,
    max_family_index, next_family_index, Family,
};
use crate::encoding::{
    agenda_digest, all_transactions, digest_agenda, digest_transaction_events, header_digest, transactions_digest,
    transactions_of,
};
use crate::sequence::{
    initial_view, next_view, quorum_reached, reaches_quorum, run_view, verify_finalization_proof,
    CommitSequenceVerifier, Phase, VerificationError, VerifierView,
};
use crate::types::{
    Agenda, AgendaProof, BlockHeader, Commit, CommitHash, FinalizationProof, Hash256, PublicKey,
    ReservedState, TypedSignature,
};
use vstd::string::StrSliceExecFns;

verus! {

/// A branch and the merge base of its tip with the `finalized` tip.
pub struct BranchInfo {
    pub name: String,
    pub merge_base: CommitHash,
}

/// Whether a name belongs to the `a-`, `b-` or `p-` family.
pub open spec fn is_family_member(name: Seq<char>) -> bool {
    family_index_spec(Family::Agenda, name) is Some || family_index_spec(Family::Block, name) is Some
        || family_index_spec(Family::PreCommit, name) is Some
}

/// Whether `clean` deletes a branch: it is not reserved, and it is not a family
/// member that branches from the `finalized` tip.
pub open spec fn clean_deletes(name: Seq<char>, merge_base: CommitHash, finalized_tip: CommitHash) -> bool {
    !is_reserved_spec(name) && !(is_family_member(name) && merge_base.hash@ == finalized_tip.hash@)
}

/// The names that `clean` deletes, in order.
pub open spec fn clean_deleted(infos: Seq<BranchInfo>, finalized_tip: CommitHash) -> Seq<Seq<char>>
    decreases infos.len(),
{
    if infos.len() == 0 {
        Seq::empty()
    } else {
        let rest = clean_deleted(infos.drop_last(), finalized_tip);
        let b = infos.last();
        if clean_deletes(b.name@, b.merge_base, finalized_tip) {
            rest.push(b.name@)
        } else {
            rest
        }
    }
}

/// The branches that `clean` keeps, in order.
pub open spec fn clean_kept(infos: Seq<BranchInfo>, finalized_tip: CommitHash) -> Seq<BranchInfo>
    decreases infos.len(),
{
    if infos.len() == 0 {
        Seq::empty()
    } else {
        let rest = clean_kept(infos.drop_last(), finalized_tip);
        let b = infos.last();
        if clean_deletes(b.name@, b.merge_base, finalized_tip) {
            rest
        } else {
            rest.push(b)
        }
    }
}

/// Whether a name belongs to the given family.
pub fn is_family_name(f: Family, name: &str) -> (r: bool)
    ensures
        r == family_index_spec(f, name@) is Some,
{
    let n = name.unicode_len();
    let letter = match f {
        Family::Agenda => 'a',
        Family::Block => 'b',
        Family::PreCommit => 'p',
    };
    if n < 3 || name.get_char(0) != letter || name.get_char(1) != '-' {
        return false;
    }
    let mut i: usize = 2;
    while i < n
        invariant
            n == name@.len(),
            2 <= i <= n,
            forall|j: int| 2 <= j < i ==> '0' <= name@[j] && name@[j] <= '9',
        decreases n - i,
    {
        let c = name.get_char(i);
        if !('0' <= c && c <= '9') {
            proof {
                assert(name@.subrange(2, n as int)[i - 2] == c);
            }
            return false;
        }
        i = i + 1;
    }
    proof {
        let d = name@.subrange(2, n as int);
        assert forall|j: int| 0 <= j < d.len() implies crate::branches::is_digit(#[trigger] d[j]) by {
            assert(d[j] == name@[j + 2]);
        }
    }
    true
}

/// Whether a name belongs to the `a-`, `b-` or `p-` family.
pub fn family_member(name: &str) -> (r: bool)
    ensures
        r == is_family_member(name@),
{
    is_family_name(Family::Agenda, name) || is_family_name(Family::Block, name) || is_family_name(
        Family::PreCommit,
        name,
    )
}

/// The branches that cleaning the repository deletes: every branch but `finalized`,
/// `work` and `fp`, except the `a-`, `b-` and `p-` branches whose merge base with the
/// `finalized` tip is that tip.
pub fn clean_plan(finalized_tip: &CommitHash, branches: &Vec<BranchInfo>) -> (r: Vec<String>)
    ensures
        r@.map_values(|s: String| s@) == clean_deleted(branches@, *finalized_tip),
{
    let mut out: Vec<String> = Vec::new();
    let mut i: usize = 0;
    while i < branches.len()
        invariant
            i <= branches@.len(),
            out@.map_values(|s: String| s@) == clean_deleted(
                branches@.subrange(0, i as int),
                *finalized_tip,
            ),
        decreases branches@.len() - i,
    {
        let b = &branches[i];
        proof {
            assert(branches@.subrange(0, i + 1).drop_last() =~= branches@.subrange(0, i as int));
            assert(branches@.subrange(0, i + 1).last() == *b);
        }
        let name = b.name.as_str();
        let deletes = !is_reserved(name) && !(family_member(name) && b.merge_base.same(
            finalized_tip,
        ));
        if deletes {
            let ghost before = out@;
            out.push(b.name.clone());
            proof {
                assert(out@.map_values(|s: String| s@) =~= before.map_values(|s: String| s@).push(
                    b.name@,
                ));
            }
        }
        i = i + 1;
    }
    proof {
        assert(branches@.subrange(0, branches@.len() as int) =~= branches@);
    }
    out
}

/// Cleaning is idempotent: on the branches that a first clean keeps, with the same
/// merge bases and the same `finalized` tip, a second clean deletes nothing.
pub proof fn lemma_clean_idempotent(infos: Seq<BranchInfo>, finalized_tip: CommitHash)
    ensures
        clean_deleted(clean_kept(infos, finalized_tip), finalized_tip).len() == 0,
        clean_kept(clean_kept(infos, finalized_tip), finalized_tip) == clean_kept(
            infos,
            finalized_tip,
        ),
    decreases infos.len(),
{
    if infos.len() > 0 {
        lemma_clean_idempotent(infos.drop_last(), finalized_tip);
        let rest = clean_kept(infos.drop_last(), finalized_tip);
        let b = infos.last();
        if !clean_deletes(b.name@, b.merge_base, finalized_tip) {
            assert(rest.push(b).drop_last() =~= rest);
        }
    }
}

/// The commits since `base` along a history, oldest first: the `p` newest entries,
/// where `base` is entry `p`.
pub open spec fn since_spec(history: Seq<CommitHash>, p: int) -> Seq<CommitHash> {
    Seq::new(p as nat, |i: int| history[p - 1 - i])
}

/// Where `base` first occurs in `history`.
pub open spec fn first_at(history: Seq<CommitHash>, base: CommitHash, p: int) -> bool {
    &&& 0 <= p < history.len()
    &&& history[p].hash@ == base.hash@
    &&& forall|j: int| 0 <= j < p ==> history[j].hash@ != base.hash@
}

/// The commits after `base` along `history` (a tip, then its ancestors, the direct
/// parent first), oldest first; `None` where `base` is not in `history`.
pub fn commits_since(history: &Vec<CommitHash>, base: &CommitHash) -> (r: Option<Vec<CommitHash>>)
    ensures
        match r {
            Some(v) => exists|p: int| first_at(history@, *base, p) && v@ == since_spec(history@, p),
            None => forall|j: int| 0 <= j < history@.len() ==> history@[j].hash@ != base.hash@,
        },
{
    let mut p: usize = 0;
    while p < history.len() && !history[p].same(base)
        invariant
            p <= history@.len(),
            forall|j: int| 0 <= j < p ==> history@[j].hash@ != base.hash@,
        decreases history@.len() - p,
    {
        p = p + 1;
    }
    if p == history.len() {
        return None;
    }
    let mut out: Vec<CommitHash> = Vec::new();
    let mut k: usize = p;
    while k > 0
        invariant
            k <= p,
            p < history@.len(),
            out@.len() == p - k,
            forall|i: int| 0 <= i < p - k ==> out@[i] == history@[p - 1 - i],
        decreases k,
    {
        k = k - 1;
        out.push(history[k]);
    }
    proof {
        assert(first_at(history@, *base, p as int));
        assert(out@ =~= since_spec(history@, p as int));
    }
    Some(out)
}

/// Why finalization cannot proceed.
#[derive(Clone, Copy, Debug, PartialEq, Eq, Structural)]
pub enum FinalizationError {
    /// Two finalization candidates at the same, highest height.
    FatalFork,
    /// The target is not a descendant of the `finalized` tip.
    NotDescendant,
    /// The commits up to the target are rejected by the verifier.
    Verification(VerificationError),
    /// The target is not a block.
    NotABlock,
    /// The proof does not reach the quorum over the block header.
    InvalidProof,
}

/// The finalization candidate that survives: the only one at the largest height,
/// and the indices of all the others, in order. `Ok(None)` where there is none.
pub fn select_finalization(heights: &Vec<u64>) -> (r: Result<Option<(usize, Vec<usize>)>, FinalizationError>)
    ensures
        match r {
            Ok(None) => heights@.len() == 0,
            Ok(Some((w, losers))) => {
                &&& w < heights@.len()
                &&& forall|i: int| 0 <= i < heights@.len() && i != w ==> heights@[i] < heights@[w as int]
                &&& losers@ == Seq::new((heights@.len() - 1) as nat, |i: int| if i < w { i as usize } else { (i + 1) as usize })
            },
            Err(e) => e == FinalizationError::FatalFork && exists|i: int, j: int|
                0 <= i < j < heights@.len() && heights@[i] == heights@[j] && forall|k: int|
                    0 <= k < heights@.len() ==> #[trigger] heights@[k] <= heights@[i],
        },
{
    if heights.len() == 0 {
        return Ok(None);
    }
    let mut w: usize = 0;
    let mut i: usize = 1;
    while i < heights.len()
        invariant
            1 <= i <= heights@.len(),
            w < i,
            forall|k: int| 0 <= k < i ==> heights@[k] <= heights@[w as int],
            forall|k: int| 0 <= k < w ==> heights@[k] < heights@[w as int],
        decreases heights@.len() - i,
    {
        if heights[i] > heights[w] {
            w = i;
        }
        i = i + 1;
    }
    let mut j: usize = w + 1;
    while j < heights.len()
        invariant
            w < j <= heights@.len(),
            forall|k: int| 0 <= k < heights@.len() ==> heights@[k] <= heights@[w as int],
            forall|k: int| 0 <= k < j && k != w ==> heights@[k] < heights@[w as int],
        decreases heights@.len() - j,
    {
        if heights[j] == heights[w] {
            proof {
                assert(heights@[w as int] == heights@[j as int]);
            }
            return Err(FinalizationError::FatalFork);
        }
        j = j + 1;
    }
    let mut losers: Vec<usize> = Vec::new();
    let mut k: usize = 0;
    while k < heights.len()
        invariant
            w < heights@.len(),
            k <= heights@.len(),
            losers@.len() == if k <= w { k as int } else { k - 1 },
            forall|m: int| 0 <= m < losers@.len() ==> losers@[m] == if m < w { m as usize } else { (m + 1) as usize },
        decreases heights@.len() - k,
    {
        if k != w {
            losers.push(k);
        }
        k = k + 1;
    }
    proof {
        assert(losers@ =~= Seq::new((heights@.len() - 1) as nat, |m: int| if m < w { m as usize } else { (m + 1) as usize }));
    }
    Ok(Some((w, losers)))
}

/// What fetching decides for one branch.
pub enum BranchAction {
    /// The branch is outdated, or a commit on it fails to decode or to verify.
    Delete,
    /// The branch holds nothing after the `finalized` tip.
    Keep,
    /// Create the named branch at the tip.
    Create(String),
    /// The tip is a block whose proof verifies: a finalization candidate at its height.
    Candidate(u64),
    /// Fast-forward the branch to its tip.
    Move,
}

/// The decision for one branch, before a name is given to a new branch.
pub enum Decision {
    Delete,
    Keep,
    CreateIn(Family),
    Candidate(u64),
    Move,
}

/// What fetching decides for a branch whose merge base with the `finalized` tip is
/// `merge_base` and whose new commits decode to `events` (`None`: one does not decode).
pub open spec fn branch_decision(
    finalized_tip: CommitHash,
    header: BlockHeader,
    rs: crate::sequence::ReservedStateView,
    fp: Seq<crate::types::TypedSignature>,
    merge_base: CommitHash,
    events: Option<Seq<Commit>>,
) -> Decision {
    if merge_base.hash@ != finalized_tip.hash@ {
        Decision::Delete
    } else {
        match events {
            None => Decision::Delete,
            Some(evs) => if evs.len() == 0 {
                Decision::Keep
            } else {
                match run_view(initial_view(header, rs), evs) {
                    Err(_) => Decision::Delete,
                    Ok(_) => match evs.last() {
                        Commit::Agenda(_) => Decision::CreateIn(Family::Agenda),
                        Commit::AgendaProof(_) => Decision::CreateIn(Family::Agenda),
                        Commit::Block(h, _) => if quorum_reached(rs, header_digest(h), fp) {
                            Decision::Candidate(h.height)
                        } else {
                            Decision::CreateIn(Family::Block)
                        },
                        _ => Decision::Move,
                    },
                }
            },
        }
    }
}

/// Fetching leaves alone a branch that branches from the `finalized` tip and holds
/// no commit after it.
pub proof fn lemma_nothing_new_is_kept(
    finalized_tip: CommitHash,
    header: BlockHeader,
    rs: crate::sequence::ReservedStateView,
    fp: Seq<crate::types::TypedSignature>,
    merge_base: CommitHash,
)
    requires
        merge_base.hash@ == finalized_tip.hash@,
    ensures
        branch_decision(finalized_tip, header, rs, fp, merge_base, Some(Seq::empty())) is Keep,
{
}

/// Decides what fetching does with one branch: seeded with the last finalized
/// header and the reserved state, the verifier runs over the branch's new commits;
/// then its tip decides. A new `a-` or `b-` branch takes one past the largest index
/// of its family among `branches`.
pub fn integrate_branch(
    finalized_tip: &CommitHash,
    header: &BlockHeader,
    rs: &ReservedState,
    fp: &FinalizationProof,
    branches: &Vec<String>,
    merge_base: &CommitHash,
    events: &Option<Vec<Commit>>,
) -> (r: BranchAction)
    ensures
        match branch_decision(
            *finalized_tip,
            *header,
            rs@,
            fp.signatures@,
            *merge_base,
            match events {
                Some(v) => Some(v@),
                None => None,
            },
        ) {
            Decision::Delete => r is Delete,
            Decision::Keep => r is Keep,
            Decision::Move => r is Move,
            Decision::Candidate(h) => r == BranchAction::Candidate(h),
            Decision::CreateIn(f) => {
                let m = max_family_index(f, branches@.map_values(|s: String| s@));
                if m < u64::MAX {
                    r is Create && r->Create_0@ == family_name(f, (m + 1) as nat)
                } else {
                    r is Delete
                }
            },
        },
{
    if !merge_base.same(finalized_tip) {
        return BranchAction::Delete;
    }
    let evs = match events {
        Some(v) => v,
        None => {
            return BranchAction::Delete;
        },
    };
    if evs.len() == 0 {
        return BranchAction::Keep;
    }
    let mut csv = CommitSequenceVerifier::new(header, rs);
    match csv.apply_all(evs) {
        Ok(()) => {},
        Err(_) => {
            return BranchAction::Delete;
        },
    }
    let last = &evs[evs.len() - 1];
    let family = match last {
        Commit::Agenda(_) => Family::Agenda,
        Commit::AgendaProof(_) => Family::Agenda,
        Commit::Block(h, _) => {
            if verify_finalization_proof(h, fp, rs) {
                return BranchAction::Candidate(h.height);
            }
            Family::Block
        },
        _ => {
            return BranchAction::Move;
        },
    };
    match next_family_index(family, branches) {
        Some(n) => BranchAction::Create(family_branch_name(family, n)),
        None => BranchAction::Delete,
    }
}

/// Whether the commits up to a target, seeded with the last finalized header and
/// the reserved state, verify and end in a block that `proof` finalizes.
pub fn check_finalization(
    header: &BlockHeader,
    rs: &ReservedState,
    events: &Vec<Commit>,
    proof: &FinalizationProof,
) -> (r: Result<(), FinalizationError>)
    ensures
        match run_view(initial_view(*header, rs@), events@) {
            Err(e) => r == Err::<(), FinalizationError>(FinalizationError::Verification(e)),
            Ok(_) => if events@.len() == 0 || !(events@.last() is Block) {
                r == Err::<(), FinalizationError>(FinalizationError::NotABlock)
            } else if !quorum_reached(rs@, header_digest(events@.last()->Block_0), proof.signatures@) {
                r == Err::<(), FinalizationError>(FinalizationError::InvalidProof)
            } else {
                r is Ok
            },
        },
{
    let mut csv = CommitSequenceVerifier::new(header, rs);
    match csv.apply_all(events) {
        Ok(()) => {},
        Err((_, e)) => {
            return Err(FinalizationError::Verification(e));
        },
    }
    if events.len() == 0 {
        return Err(FinalizationError::NotABlock);
    }
    match &events[events.len() - 1] {
        Commit::Block(h, _) => {
            if verify_finalization_proof(h, proof, rs) {
                Ok(())
            } else {
                Err(FinalizationError::InvalidProof)
            }
        },
        _ => Err(FinalizationError::NotABlock),
    }
}

/// The commits that synchronizing the `finalized` branch to a target verifies:
/// those after the `finalized` tip along the target's history (the target first),
/// oldest first. Fails where the target does not descend from the `finalized` tip.
pub fn plan_sync(target_history: &Vec<CommitHash>, finalized_tip: &CommitHash) -> (r: Result<
    Vec<CommitHash>,
    FinalizationError,
>)
    ensures
        match r {
            Ok(v) => exists|p: int| first_at(target_history@, *finalized_tip, p) && v@ == since_spec(target_history@, p),
            Err(e) => e == FinalizationError::NotDescendant && forall|j: int|
                0 <= j < target_history@.len() ==> target_history@[j].hash@ != finalized_tip.hash@,
        },
{
    match commits_since(target_history, finalized_tip) {
        Some(v) => Ok(v),
        None => Err(FinalizationError::NotDescendant),
    }
}

/// Why an agenda cannot be created on the `work` branch.
#[derive(Clone, Copy, Debug, PartialEq, Eq, Structural)]
pub enum AgendaError {
    /// The `work` branch does not descend from the `finalized` tip.
    NotRebased,
    /// The `finalized` tip is not among the commits loaded from the `work` tip: the
    /// `work` branch is too far from `finalized` and must be rebased.
    TooFarFromFinalized,
    /// A commit after the `finalized` tip is not an ordinary transaction.
    NotTransactionPhase,
    /// The last finalized block is at the largest height.
    HeightOverflow,
    /// The signatures over an agenda do not reach the quorum.
    InsufficientSignatures,
}

/// How many commits back from the `work` tip an agenda may gather.
pub const MAX_AGENDA_DEPTH: usize = 256;

/// The commits that an agenda on `work` gathers: those after the `finalized` tip
/// along `work_history` (the `work` tip, then its ancestors), oldest first.
pub fn plan_agenda(
    finalized_tip: &CommitHash,
    merge_base: &CommitHash,
    work_history: &Vec<CommitHash>,
) -> (r: Result<Vec<CommitHash>, AgendaError>)
    ensures
        merge_base.hash@ != finalized_tip.hash@ ==> r == Err::<Vec<CommitHash>, AgendaError>(
            AgendaError::NotRebased,
        ),
        merge_base.hash@ == finalized_tip.hash@ ==> match r {
            Ok(v) => exists|p: int| first_at(work_history@, *finalized_tip, p) && v@ == since_spec(work_history@, p),
            Err(e) => e == AgendaError::TooFarFromFinalized && forall|j: int|
                0 <= j < work_history@.len() ==> work_history@[j].hash@ != finalized_tip.hash@,
        },
{
    if !merge_base.same(finalized_tip) {
        return Err(AgendaError::NotRebased);
    }
    match commits_since(work_history, finalized_tip) {
        Some(v) => Ok(v),
        None => Err(AgendaError::TooFarFromFinalized),
    }
}

/// From the start of a run, transaction events are all accepted and collected.
proof fn lemma_run_transactions(s: VerifierView, events: Seq<Commit>)
    requires
        s.phase == Phase::Transactions,
        all_transactions(events),
    ensures
        run_view(s, events) == Ok::<VerifierView, VerificationError>(
            VerifierView { transactions: s.transactions + transactions_of(events), ..s },
        ),
    decreases events.len(),
{
    reveal(next_view);
    if events.len() == 0 {
        assert(s.transactions + transactions_of(events) =~= s.transactions);
    } else {
        let pre = events.drop_last();
        assert forall|i: int| 0 <= i < pre.len() implies (#[trigger] pre[i]) is Transaction by {
            assert(pre[i] == events[i]);
        }
        lemma_run_transactions(s, pre);
        assert(events[events.len() - 1] is Transaction);
        assert(s.transactions + transactions_of(pre).push(events.last()->Transaction_0)
            =~= s.transactions + transactions_of(events));
    }
}

/// The agenda event that gathers the transactions after the last finalized block:
/// at the next height, with the digest over them. The verifier, seeded with the
/// last finalized header and the reserved state, accepts the events and then the
/// agenda.
pub fn build_agenda(
    author: PublicKey,
    timestamp: u64,
    header: &BlockHeader,
    rs: &ReservedState,
    events: &Vec<Commit>,
) -> (r: Result<Commit, AgendaError>)
    ensures
        !all_transactions(events@) ==> r == Err::<Commit, AgendaError>(
            AgendaError::NotTransactionPhase,
        ),
        all_transactions(events@) && header.height == u64::MAX ==> r == Err::<Commit, AgendaError>(
            AgendaError::HeightOverflow,
        ),
        all_transactions(events@) && header.height < u64::MAX ==> {
            &&& r is Ok
            &&& r->Ok_0 is Agenda
            &&& r->Ok_0->Agenda_0.author == author
            &&& r->Ok_0->Agenda_0.timestamp == timestamp
            &&& r->Ok_0->Agenda_0.height == header.height + 1
            &&& r->Ok_0->Agenda_0.hash.hash@ == transactions_digest(
                (header.height + 1) as u64,
                transactions_of(events@),
            )
            &&& run_view(initial_view(*header, rs@), events@) is Ok
            &&& next_view(run_view(initial_view(*header, rs@), events@)->Ok_0, r->Ok_0) is Ok
        },
{
    let mut i: usize = 0;
    while i < events.len()
        invariant
            i <= events@.len(),
            forall|j: int| 0 <= j < i ==> (#[trigger] events@[j]) is Transaction,
        decreases events@.len() - i,
    {
        match &events[i] {
            Commit::Transaction(_) => {},
            _ => {
                return Err(AgendaError::NotTransactionPhase);
            },
        }
        i = i + 1;
    }
    if header.height == u64::MAX {
        return Err(AgendaError::HeightOverflow);
    }
    let height = header.height + 1;
    let hash = digest_transaction_events(height, events);
    let agenda = Commit::Agenda(Agenda { author, timestamp, height, hash });
    proof {
        let s = initial_view(*header, rs@);
        lemma_run_transactions(s, events@);
        assert(s.transactions + transactions_of(events@) =~= transactions_of(events@));
        reveal(next_view);
    }
    Ok(agenda)
}

/// The event that records the approval of an agenda: the signatures over the
/// agenda's digest, which must reach the quorum of the reserved state.
pub fn build_agenda_proof(agenda: &Agenda, rs: &ReservedState, proof: Vec<TypedSignature>) -> (r: Result<
    Commit,
    AgendaError,
>)
    ensures
        quorum_reached(rs@, agenda_digest(*agenda), proof@) ==> {
            &&& r is Ok
            &&& r->Ok_0 is AgendaProof
            &&& r->Ok_0->AgendaProof_0.height == agenda.height
            &&& r->Ok_0->AgendaProof_0.agenda_hash.hash@ == agenda_digest(*agenda)
            &&& r->Ok_0->AgendaProof_0.proof == proof
        },
        !quorum_reached(rs@, agenda_digest(*agenda), proof@) ==> r == Err::<Commit, AgendaError>(
            AgendaError::InsufficientSignatures,
        ),
{
    let agenda_hash = digest_agenda(agenda);
    if !reaches_quorum(rs, &agenda_hash, &proof) {
        return Err(AgendaError::InsufficientSignatures);
    }
    Ok(Commit::AgendaProof(AgendaProof { height: agenda.height, agenda_hash, proof }))
}

/// Why a block cannot be created on the `work` branch.
#[derive(Clone, Copy, Debug, PartialEq, Eq, Structural)]
pub enum BlockError {
    /// The commits after the `finalized` tip are rejected by the verifier.
    Verification(VerificationError),
    /// The commits after the `finalized` tip do not end with an approved agenda.
    NotApproved,
}

/// The block event that closes the approved agenda at the end of `events`: on top of
/// the last block that the verifier accepted, at the next height, referring to the
/// agenda's digest. The verifier accepts it after the events.
pub fn build_block(
    author: PublicKey,
    timestamp: u64,
    header: &BlockHeader,
    rs: &ReservedState,
    events: &Vec<Commit>,
) -> (r: Result<Commit, BlockError>)
    ensures
        match run_view(initial_view(*header, rs@), events@) {
            Err(e) => r == Err::<Commit, BlockError>(BlockError::Verification(e)),
            Ok(s) => if s.phase != Phase::AgendaApproved {
                r == Err::<Commit, BlockError>(BlockError::NotApproved)
            } else {
                &&& r is Ok
                &&& r->Ok_0 matches Commit::Block(h, None) && {
                    &&& h.author == author
                    &&& h.timestamp == timestamp
                    &&& h.height == s.height + 1
                    &&& h.previous_hash.hash@ == s.header_digest
                    &&& s.agenda == Some(h.agenda_hash.hash@)
                }
                &&& next_view(s, r->Ok_0) is Ok
            },
        },
{
    let mut csv = CommitSequenceVerifier::new(header, rs);
    match csv.apply_all(events) {
        Ok(()) => {},
        Err((_, e)) => {
            return Err(BlockError::Verification(e));
        },
    }
    if csv.phase() != Phase::AgendaApproved {
        return Err(BlockError::NotApproved);
    }
    let height = csv.height();
    let agenda_hash = match csv.agenda_digest() {
        Some(h) => h,
        None => {
            return Err(BlockError::NotApproved);
        },
    };
    let block = BlockHeader {
        author,
        previous_hash: csv.header_digest(),
        height: height + 1,
        timestamp,
        agenda_hash,
    };
    proof {
        reveal(next_view);
    }
    Ok(Commit::Block(block, None))
}

/// The header that stands for the genesis block: height zero, no author, and zero
/// digests.
pub open spec fn is_genesis_header(h: BlockHeader) -> bool {
    &&& h.author.key@.len() == 0
    &&& h.previous_hash.hash@ == Seq::new(32, |i: int| 0u8)
    &&& h.height == 0
    &&& h.timestamp == 0
    &&& h.agenda_hash.hash@ == Seq::new(32, |i: int| 0u8)
}

/// The header that stands for the genesis block.
pub fn genesis_header() -> (r: BlockHeader)
    ensures
        is_genesis_header(r),
{
    let r = BlockHeader {
        author: PublicKey { key: Vec::new() },
        previous_hash: Hash256 { hash: [0u8; 32] },
        height: 0,
        timestamp: 0,
        agenda_hash: Hash256 { hash: [0u8; 32] },
    };
    proof {
        assert(r.previous_hash.hash@ =~= Seq::new(32, |i: int| 0u8));
        assert(r.agenda_hash.hash@ =~= Seq::new(32, |i: int| 0u8));
    }
    r
}

/// The header of the last finalized block, from the event at the `finalized` tip:
/// a block's own header, or the genesis header at the genesis commit. Any other
/// event there breaks the repository's integrity.
pub fn last_finalized_header(tip: Commit) -> (r: Result<BlockHeader, crate::ancestry::IntegrityError>)
    ensures
        match tip {
            Commit::Block(h, _) => r == Ok::<BlockHeader, crate::ancestry::IntegrityError>(h),
            Commit::Genesis(_) => r is Ok && is_genesis_header(r->Ok_0),
            _ => r == Err::<BlockHeader, crate::ancestry::IntegrityError>(
                crate::ancestry::IntegrityError::InvalidRepository,
            ),
        },
{
    match tip {
        Commit::Block(h, _) => Ok(h),
        Commit::Genesis(_) => Ok(genesis_header()),
        _ => Err(crate::ancestry::IntegrityError::InvalidRepository),
    }
}

/// Why genesis cannot be brought up.
#[derive(Clone, Copy, Debug, PartialEq, Eq, Structural)]
pub enum GenesisError {
    /// The `finalized` branch does not hold exactly the initial and the genesis commit.
    UnexpectedHistory,
    /// The commit at the `finalized` tip is not a genesis commit.
    NotGenesis,
}

/// The finalization proof that the `fp` branch holds for the genesis block: no
/// signature is needed for it. `finalized_len` is the number of commits on the
/// `finalized` branch and `tip` the event at its tip.
pub fn genesis_proof(finalized_len: usize, tip: &Commit) -> (r: Result<FinalizationProof, GenesisError>)
    ensures
        finalized_len != 2 ==> r == Err::<FinalizationProof, GenesisError>(
            GenesisError::UnexpectedHistory,
        ),
        finalized_len == 2 && !(*tip is Genesis) ==> r == Err::<FinalizationProof, GenesisError>(
            GenesisError::NotGenesis,
        ),
        finalized_len == 2 && *tip is Genesis ==> r is Ok && r->Ok_0.signatures@.len() == 0,
{
    if finalized_len != 2 {
        return Err(GenesisError::UnexpectedHistory);
    }
    match tip {
        Commit::Genesis(_) => Ok(FinalizationProof { signatures: Vec::new() }),
        _ => Err(GenesisError::NotGenesis),
    }
}

/// A branch whose tip is a block that the current proof finalizes.
pub struct Candidate {
    pub branch: String,
    pub tip: CommitHash,
    pub height: u64,
}

/// The decisions of one fetch, branch after branch: the state that they share is the
/// `finalized` tip with its header, reserved state and proof, the branch names in use,
/// and the finalization candidates found so far.
pub struct FetchSession {
    pub finalized_tip: CommitHash,
    pub header: BlockHeader,
    pub reserved_state: ReservedState,
    pub proof: FinalizationProof,
    pub names: Vec<String>,
    pub candidates: Vec<Candidate>,
}

/// What a fetch does once every branch has been seen.
pub struct FinalizationPlan {
    /// The tip that `finalized` moves to.
    pub tip: CommitHash,
    /// The branches of the candidates at lower heights, to delete.
    pub losers: Vec<String>,
}

impl FetchSession {
    /// A session over the branches in use, before any of them is seen.
    pub fn new(
        finalized_tip: CommitHash,
        header: BlockHeader,
        reserved_state: ReservedState,
        proof: FinalizationProof,
        names: Vec<String>,
    ) -> (r: Self)
        ensures
            r.finalized_tip == finalized_tip,
            r.header == header,
            r.reserved_state == reserved_state,
            r.proof == proof,
            r.names == names,
            r.candidates@.len() == 0,
    {
        FetchSession { finalized_tip, header, reserved_state, proof, names, candidates: Vec::new() }
    }

    /// Decides what to do with one branch (see `integrate_branch`) and records the
    /// outcome: a created branch's name is then in use, and a candidate is kept for
    /// `finish`.
    pub fn on_branch(
        &mut self,
        branch: String,
        tip: CommitHash,
        merge_base: &CommitHash,
        events: &Option<Vec<Commit>>,
    ) -> (r: BranchAction)
        ensures
            final(self).finalized_tip == old(self).finalized_tip,
            final(self).header == old(self).header,
            final(self).reserved_state == old(self).reserved_state,
            final(self).proof == old(self).proof,
            match branch_decision(
                old(self).finalized_tip,
                old(self).header,
                old(self).reserved_state@,
                old(self).proof.signatures@,
                *merge_base,
                match events {
                    Some(v) => Some(v@),
                    None => None,
                },
            ) {
                Decision::Delete => r is Delete,
                Decision::Keep => r is Keep,
                Decision::Move => r is Move,
                Decision::Candidate(h) => r == BranchAction::Candidate(h),
                Decision::CreateIn(f) => {
                    let m = max_family_index(f, old(self).names@.map_values(|s: String| s@));
                    if m < u64::MAX {
                        r is Create && r->Create_0@ == family_name(f, (m + 1) as nat)
                    } else {
                        r is Delete
                    }
                },
            },
            r is Create ==> final(self).names@ == old(self).names@.push(r->Create_0),
            !(r is Create) ==> final(self).names@ == old(self).names@,
            r is Candidate ==> final(self).candidates@ == old(self).candidates@.push(
                Candidate { branch, tip, height: r->Candidate_0 },
            ),
            !(r is Candidate) ==> final(self).candidates@ == old(self).candidates@,
    {
        let action = integrate_branch(
            &self.finalized_tip,
            &self.header,
            &self.reserved_state,
            &self.proof,
            &self.names,
            merge_base,
            events,
        );
        match &action {
            BranchAction::Create(name) => {
                self.names.push(name.clone());
            },
            BranchAction::Candidate(height) => {
                self.candidates.push(Candidate { branch, tip, height: *height });
            },
            _ => {},
        }
        action
    }

    /// Chooses among the candidates (see `select_finalization`): `Ok(None)` without
    /// any, the surviving tip and the branches of the others otherwise, or a fatal
    /// fork.
    pub fn finish(&self) -> (r: Result<Option<FinalizationPlan>, FinalizationError>)
        ensures
            self.candidates@.len() == 0 ==> r == Ok::<Option<FinalizationPlan>, FinalizationError>(None),
            r is Err ==> r->Err_0 == FinalizationError::FatalFork && exists|i: int, j: int|
                0 <= i < j < self.candidates@.len() && self.candidates@[i].height
                    == self.candidates@[j].height && forall|k: int|
                    0 <= k < self.candidates@.len() ==> #[trigger] self.candidates@[k].height
                        <= self.candidates@[i].height,
            r matches Ok(Some(plan)) ==> exists|w: int|
                0 <= w < self.candidates@.len() && plan.tip == self.candidates@[w].tip && (forall|i: int|
                    0 <= i < self.candidates@.len() && i != w ==> #[trigger] self.candidates@[i].height
                        < self.candidates@[w].height) && plan.losers@ == Seq::new(
                    (self.candidates@.len() - 1) as nat,
                    |i: int|
                        if i < w {
                            self.candidates@[i].branch
                        } else {
                            self.candidates@[i + 1].branch
                        },
                ),
            self.candidates@.len() > 0 ==> r != Ok::<Option<FinalizationPlan>, FinalizationError>(None),
    {
        let mut heights: Vec<u64> = Vec::new();
        let mut i: usize = 0;
        while i < self.candidates.len()
            invariant
                i <= self.candidates@.len(),
                heights@.len() == i,
                forall|k: int| 0 <= k < i ==> heights@[k] == self.candidates@[k].height,
            decreases self.candidates@.len() - i,
        {
            heights.push(self.candidates[i].height);
            i = i + 1;
        }
        match select_finalization(&heights) {
            Err(e) => {
                proof {
                    let (a, b) = choose|a: int, b: int|
                        0 <= a < b < heights@.len() && heights@[a] == heights@[b] && forall|k: int|
                            0 <= k < heights@.len() ==> #[trigger] heights@[k] <= heights@[a];
                    assert forall|k: int| 0 <= k < self.candidates@.len() implies #[trigger] self.candidates@[k].height
                        <= self.candidates@[a].height by {
                        assert(heights@[k] <= heights@[a]);
                    }
                }
                Err(e)
            },
            Ok(None) => Ok(None),
            Ok(Some((w, losers))) => {
                let mut branches: Vec<String> = Vec::new();
                let mut k: usize = 0;
                while k < losers.len()
                    invariant
                        w < self.candidates@.len(),
                        heights@.len() == self.candidates@.len(),
                        losers@ == Seq::new((heights@.len() - 1) as nat, |i: int| if i < w { i as usize } else { (i + 1) as usize }),
                        k <= losers@.len(),
                        branches@.len() == k,
                        forall|m: int| 0 <= m < k ==> branches@[m] == (if m < w {
                            self.candidates@[m].branch
                        } else {
                            self.candidates@[m + 1].branch
                        }),
                    decreases losers@.len() - k,
                {
                    let idx = losers[k];
                    branches.push(self.candidates[idx].branch.clone());
                    k = k + 1;
                }
                let plan = FinalizationPlan { tip: self.candidates[w].tip, losers: branches };
                proof {
                    assert(plan.losers@ =~= Seq::new(
                        (self.candidates@.len() - 1) as nat,
                        |i: int|
                            if i < w {
                                self.candidates@[i].branch
                            } else {
                                self.candidates@[i + 1].branch
                            },
                    ));
                    assert forall|i: int| 0 <= i < self.candidates@.len() && i != w implies #[trigger] self.candidates@[i].height
                        < self.candidates@[w as int].height by {
                        assert(heights@[i] < heights@[w as int]);
                    }
                }
                Ok(Some(plan))
            },
        }
    }
}

} // verus!
