use secp256k1::{Message, Secp256k1, SecretKey};
use simperby_repository::distributed::{
    build_agenda, build_agenda_proof, build_block, check_finalization, genesis_header, integrate_branch, plan_sync, BranchAction,
    AgendaError, BlockError, FetchSession, FinalizationError,
};
use simperby_repository::encoding::{digest_agenda, digest_header, digest_transactions};
use simperby_repository::sequence::{
    reaches_quorum, verify_finalization_proof, CommitSequenceVerifier, Phase, VerificationError,
};
use simperby_repository::{
    AgendaProof, BlockHeader, Commit, CommitHash, ExtraAgendaTransaction, FinalizationProof, Hash256,
    PublicKey, ReservedState, Transaction, TypedSignature, Validator,
};

fn secret(seed: u8) -> SecretKey {
    SecretKey::from_slice(&[seed; 32]).unwrap()
}

fn public(seed: u8) -> PublicKey {
    let secp = Secp256k1::new();
    let pk = secp256k1::PublicKey::from_secret_key(&secp, &secret(seed));
    PublicKey { key: pk.serialize().to_vec() }
}

fn sign(seed: u8, message: &Hash256) -> TypedSignature {
    let secp = Secp256k1::new();
    let msg = Message::from_slice(&message.hash).unwrap();
    let sig = secp.sign_ecdsa(&msg, &secret(seed));
    TypedSignature { signature: sig.serialize_compact().to_vec(), signer: public(seed) }
}

fn one_validator() -> ReservedState {
    ReservedState { validators: vec![Validator { key: public(1), weight: 1 }], quorum: 1 }
}

fn tx(n: u64) -> Transaction {
    Transaction {
        author: public(1),
        timestamp: n,
        head: format!("tx {}", n),
        body: format!("body of {}", n),
    }
}

/// The events of one full block at height 1 on top of genesis, with the agenda,
/// its proof and the block header.
fn block_one(rs: &ReservedState) -> (Vec<Commit>, BlockHeader) {
    let genesis = genesis_header();
    let txs = vec![tx(1), tx(2)];
    let mut events: Vec<Commit> = txs.iter().cloned().map(Commit::Transaction).collect();
    let agenda = match build_agenda(public(1), 100, &genesis, rs, &events).unwrap() {
        Commit::Agenda(a) => a,
        _ => panic!("not an agenda"),
    };
    assert_eq!(agenda.hash, digest_transactions(1, &txs));
    let agenda_hash = digest_agenda(&agenda);
    events.push(Commit::Agenda(agenda));
    events.push(Commit::AgendaProof(AgendaProof {
        height: 1,
        agenda_hash,
        proof: vec![sign(1, &agenda_hash)],
    }));
    let header = BlockHeader {
        author: public(1),
        previous_hash: digest_header(&genesis),
        height: 1,
        timestamp: 200,
        agenda_hash,
    };
    events.push(Commit::Block(header.clone(), None));
    (events, header)
}

#[test]
fn verifier_accepts_a_full_block() {
    let rs = one_validator();
    let (events, header) = block_one(&rs);
    let mut csv = CommitSequenceVerifier::new(&genesis_header(), &rs);
    assert_eq!(csv.apply_all(&events), Ok(()));
    assert_eq!(csv.height(), 1);
    assert_eq!(csv.phase(), Phase::Transactions);
    let proof = FinalizationProof { signatures: vec![sign(1, &digest_header(&header))] };
    assert!(verify_finalization_proof(&header, &proof, &rs));
}

#[test]
fn verifier_is_deterministic() {
    let rs = one_validator();
    let (events, _) = block_one(&rs);
    let mut a = CommitSequenceVerifier::new(&genesis_header(), &rs);
    let mut b = CommitSequenceVerifier::new(&genesis_header(), &rs);
    assert_eq!(a.apply_all(&events), b.apply_all(&events));
    assert_eq!(a.height(), b.height());
    assert_eq!(a.phase(), b.phase());
}

#[test]
fn verifier_rejects_phase_violations() {
    let rs = one_validator();
    let (events, _) = block_one(&rs);
    let mut csv = CommitSequenceVerifier::new(&genesis_header(), &rs);
    // a block right away
    assert_eq!(csv.apply_commit(&events[4]), Err(VerificationError::PhaseViolation));
    // a transaction after privileged ones
    let extra = Commit::ExtraAgendaTransaction(ExtraAgendaTransaction {
        author: public(1),
        timestamp: 5,
        body: "governance".to_string(),
    });
    assert_eq!(csv.apply_commit(&extra), Ok(()));
    assert_eq!(csv.phase(), Phase::ExtraAgenda);
    assert_eq!(csv.apply_commit(&events[0]), Err(VerificationError::PhaseViolation));
    assert_eq!(csv.apply_commit(&Commit::Genesis(one_validator())), Err(VerificationError::PhaseViolation));
}

#[test]
fn verifier_rejects_wrong_agenda() {
    let rs = one_validator();
    let (events, _) = block_one(&rs);
    let mut csv = CommitSequenceVerifier::new(&genesis_header(), &rs);
    // the agenda's digest covers two transactions; only one was applied
    assert_eq!(csv.apply_commit(&events[0]), Ok(()));
    assert_eq!(csv.apply_commit(&events[2]), Err(VerificationError::HashMismatch));
    assert_eq!(csv.phase(), Phase::Transactions);
    let mut wrong_height = events[2].clone();
    if let Commit::Agenda(a) = &mut wrong_height {
        a.height = 5;
    }
    assert_eq!(csv.apply_commit(&wrong_height), Err(VerificationError::HeightMismatch));
}

#[test]
fn verifier_rejects_unsigned_proof() {
    let rs = one_validator();
    let (events, _) = block_one(&rs);
    let mut csv = CommitSequenceVerifier::new(&genesis_header(), &rs);
    assert_eq!(csv.apply_all(&events[0..3].to_vec()), Ok(()));
    let mut proof = events[3].clone();
    if let Commit::AgendaProof(p) = &mut proof {
        // signed by a key outside the validator set
        p.proof = vec![sign(2, &p.agenda_hash)];
    }
    assert_eq!(csv.apply_commit(&proof), Err(VerificationError::InsufficientSignatures));
    assert_eq!(csv.apply_all(&events[3..].to_vec()), Ok(()));
}

#[test]
fn verifier_rejects_wrong_previous_hash() {
    let rs = one_validator();
    let (mut events, _) = block_one(&rs);
    if let Commit::Block(h, _) = &mut events[4] {
        h.previous_hash = Hash256 { hash: [7; 32] };
    }
    let mut csv = CommitSequenceVerifier::new(&genesis_header(), &rs);
    assert_eq!(csv.apply_all(&events), Err((4, VerificationError::HashMismatch)));
}

#[test]
fn block_installs_reserved_state() {
    let rs = one_validator();
    let (mut events, _) = block_one(&rs);
    let next = ReservedState {
        validators: vec![Validator { key: public(2), weight: 3 }],
        quorum: 2,
    };
    if let Commit::Block(h, r) = &mut events[4] {
        let _ = h;
        *r = Some(next.clone());
    }
    let mut csv = CommitSequenceVerifier::new(&genesis_header(), &rs);
    assert_eq!(csv.apply_all(&events), Ok(()));
    assert_eq!(csv.height(), 1);
}

#[test]
fn quorum_counts_each_validator_once() {
    let rs = ReservedState {
        validators: vec![
            Validator { key: public(1), weight: 1 },
            Validator { key: public(2), weight: 1 },
        ],
        quorum: 2,
    };
    let m = Hash256 { hash: [9; 32] };
    assert!(!reaches_quorum(&rs, &m, &vec![sign(1, &m), sign(1, &m)]));
    assert!(reaches_quorum(&rs, &m, &vec![sign(1, &m), sign(2, &m)]));
    let other = Hash256 { hash: [8; 32] };
    assert!(!reaches_quorum(&rs, &m, &vec![sign(1, &m), sign(2, &other)]));
    let zero = ReservedState { validators: vec![], quorum: 0 };
    assert!(reaches_quorum(&zero, &m, &vec![]));
}

#[test]
fn sync_fast_forward() {
    let rs = one_validator();
    let (events, header) = block_one(&rs);
    // finalized -> c1 .. c5, the history of the target listed from the target down
    let c = |n: u8| CommitHash { hash: [n; 20] };
    let history = vec![c(5), c(4), c(3), c(2), c(1), c(0)];
    let planned = plan_sync(&history, &c(0)).unwrap();
    assert_eq!(planned, vec![c(1), c(2), c(3), c(4), c(5)]);
    let fp = FinalizationProof { signatures: vec![sign(1, &digest_header(&header))] };
    assert_eq!(check_finalization(&genesis_header(), &rs, &events, &fp), Ok(()));
    let wrong = FinalizationProof { signatures: vec![sign(2, &digest_header(&header))] };
    assert_eq!(
        check_finalization(&genesis_header(), &rs, &events, &wrong),
        Err(FinalizationError::InvalidProof)
    );
    assert_eq!(
        check_finalization(&genesis_header(), &rs, &events[1..].to_vec(), &fp),
        Err(FinalizationError::Verification(VerificationError::HashMismatch))
    );
}

#[test]
fn fetch_files_block_candidates() {
    let rs = one_validator();
    let (events, header) = block_one(&rs);
    let fin = CommitHash { hash: [1; 20] };
    let names: Vec<String> = vec!["finalized".to_string(), "b-4".to_string()];
    let good = FinalizationProof { signatures: vec![sign(1, &digest_header(&header))] };
    let action = integrate_branch(&fin, &genesis_header(), &rs, &good, &names, &fin, &Some(events.clone()));
    assert!(matches!(action, BranchAction::Candidate(1)));
    let none = FinalizationProof { signatures: vec![] };
    match integrate_branch(&fin, &genesis_header(), &rs, &none, &names, &fin, &Some(events.clone())) {
        BranchAction::Create(name) => assert_eq!(name, "b-5"),
        _ => panic!("expected a new block branch"),
    }
    let proof_tip = events[0..4].to_vec();
    match integrate_branch(&fin, &genesis_header(), &rs, &none, &names, &fin, &Some(proof_tip)) {
        BranchAction::Create(name) => assert_eq!(name, "a-1"),
        _ => panic!("expected a new agenda branch"),
    }
}

#[test]
fn approval_needs_quorum() {
    let rs = one_validator();
    let (events, _) = block_one(&rs);
    let agenda = match &events[2] {
        Commit::Agenda(a) => a.clone(),
        _ => panic!("not an agenda"),
    };
    let digest = digest_agenda(&agenda);
    match build_agenda_proof(&agenda, &rs, vec![sign(1, &digest)]).unwrap() {
        Commit::AgendaProof(p) => {
            assert_eq!(p.height, 1);
            assert_eq!(p.agenda_hash, digest);
            assert_eq!(p.proof.len(), 1);
        }
        _ => panic!("not an agenda proof"),
    }
    assert_eq!(
        build_agenda_proof(&agenda, &rs, vec![sign(2, &digest)]),
        Err(AgendaError::InsufficientSignatures)
    );
}

#[test]
fn block_creation_closes_approved_agenda() {
    let rs = one_validator();
    let (events, header) = block_one(&rs);
    let block = build_block(public(1), 200, &genesis_header(), &rs, &events[0..4].to_vec()).unwrap();
    assert_eq!(block, Commit::Block(header, None));
    let mut csv = CommitSequenceVerifier::new(&genesis_header(), &rs);
    assert_eq!(csv.apply_all(&events[0..4].to_vec()), Ok(()));
    assert_eq!(csv.apply_commit(&block), Ok(()));
    assert_eq!(
        build_block(public(1), 200, &genesis_header(), &rs, &events[0..3].to_vec()),
        Err(BlockError::NotApproved)
    );
    assert_eq!(
        build_block(public(1), 200, &genesis_header(), &rs, &events[1..4].to_vec()),
        Err(BlockError::Verification(VerificationError::HashMismatch))
    );
}

/// The events of one full block on top of `prev`, with a block timestamp of `time`.
fn block_on(prev: &BlockHeader, rs: &ReservedState, time: u64) -> (Vec<Commit>, BlockHeader) {
    let mut events = vec![Commit::Transaction(tx(time))];
    let agenda = build_agenda(public(1), time, prev, rs, &events).unwrap();
    events.push(agenda.clone());
    let agenda = match agenda {
        Commit::Agenda(a) => a,
        _ => panic!("not an agenda"),
    };
    events.push(build_agenda_proof(&agenda, rs, vec![sign(1, &digest_agenda(&agenda))]).unwrap());
    let block = build_block(public(1), time, prev, rs, &events).unwrap();
    let header = match &block {
        Commit::Block(h, _) => h.clone(),
        _ => panic!("not a block"),
    };
    events.push(block);
    (events, header)
}

#[test]
fn fork_of_two_finalized_blocks() {
    let rs = one_validator();
    let (_, first) = block_one(&rs);
    let finalized = CommitHash { hash: [1; 20] };
    let (left, left_header) = block_on(&first, &rs, 300);
    let (right, right_header) = block_on(&first, &rs, 301);
    assert_eq!(left_header.height, 2);
    assert_eq!(right_header.height, 2);
    let both = FinalizationProof {
        signatures: vec![sign(1, &digest_header(&left_header)), sign(1, &digest_header(&right_header))],
    };
    let mut session = FetchSession::new(finalized, first.clone(), rs.clone(), both, vec![]);
    let a = session.on_branch("left".to_string(), CommitHash { hash: [2; 20] }, &finalized, &Some(left));
    let b = session.on_branch("right".to_string(), CommitHash { hash: [3; 20] }, &finalized, &Some(right.clone()));
    assert!(matches!(a, BranchAction::Candidate(2)));
    assert!(matches!(b, BranchAction::Candidate(2)));
    assert!(matches!(session.finish(), Err(FinalizationError::FatalFork)));

    // a single candidate wins, and a lower one is deleted
    let (_, lower) = block_one(&rs);
    let mut session = FetchSession::new(
        finalized,
        first,
        rs.clone(),
        FinalizationProof { signatures: vec![sign(1, &digest_header(&right_header))] },
        vec![],
    );
    session.on_branch("right".to_string(), CommitHash { hash: [3; 20] }, &finalized, &Some(right));
    session.candidates.push(simperby_repository::distributed::Candidate {
        branch: "older".to_string(),
        tip: CommitHash { hash: [4; 20] },
        height: lower.height,
    });
    match session.finish() {
        Ok(Some(plan)) => {
            assert_eq!(plan.tip, CommitHash { hash: [3; 20] });
            assert_eq!(plan.losers, vec!["older".to_string()]);
        }
        _ => panic!("expected a single surviving candidate"),
    }
}
