use simperby_repository::ancestry::{linear_ancestors, new_commits, IntegrityError, WalkEntry};
use simperby_repository::branches::{
    decimal, family_branch_name, family_index, is_reserved, next_family_index, Family,
};
use simperby_repository::codec::{check_frame, decode_title, encode_title, DecodeError, SemanticCommit};
use simperby_repository::distributed::{
    build_agenda, check_finalization, clean_plan, commits_since, genesis_header, genesis_proof,
    integrate_branch, last_finalized_header, plan_agenda, plan_sync, select_finalization,
    AgendaError, BranchAction, BranchInfo, FetchSession, FinalizationError, GenesisError,
};
use simperby_repository::peers::{hex, remote_name, remotes_for, Peer};
use simperby_repository::{
    Agenda, CommitHash, CommitKind, Commit, FinalizationProof, Hash256, PublicKey, ReservedState,
    Transaction, Validator,
};

fn h(n: u8) -> CommitHash {
    CommitHash { hash: [n; 20] }
}

fn entry(n: u8, parents: &[u8]) -> WalkEntry {
    WalkEntry { hash: h(n), parents: parents.iter().map(|p| h(*p)).collect() }
}

fn key() -> PublicKey {
    PublicKey { key: vec![2; 33] }
}

fn rs() -> ReservedState {
    ReservedState { validators: vec![Validator { key: key(), weight: 1 }], quorum: 1 }
}

fn tx(n: u64) -> Commit {
    Commit::Transaction(Transaction {
        author: key(),
        timestamp: n,
        head: "head".to_string(),
        body: "body".to_string(),
    })
}

#[test]
fn title_round_trip() {
    let t = encode_title(CommitKind::AgendaProof, "approved at 3");
    assert_eq!(t, "agenda-proof:approved at 3");
    let (k, s) = decode_title(&t).unwrap();
    assert_eq!(k, CommitKind::AgendaProof);
    assert_eq!(s, "approved at 3");
    assert_eq!(encode_title(k, &s), t);
    assert_eq!(decode_title("tx:"), Ok((CommitKind::Transaction, String::new())));
    assert_eq!(decode_title("tx:a:b"), Ok((CommitKind::Transaction, "a:b".to_string())));
}

#[test]
fn title_rejections() {
    assert_eq!(decode_title("no colon"), Err(DecodeError::InvalidTitle));
    assert_eq!(decode_title("vote:x"), Err(DecodeError::InvalidTitle));
    assert_eq!(decode_title("tx:two\nlines"), Err(DecodeError::InvalidTitle));
    assert_eq!(decode_title(""), Err(DecodeError::InvalidTitle));
}

#[test]
fn frame_reserved_state_rules() {
    let sc = |title: &str, rs: Option<ReservedState>| SemanticCommit {
        title: title.to_string(),
        body: "{}".to_string(),
        reserved_state: rs,
    };
    assert_eq!(check_frame(&sc("genesis:start", Some(rs()))), Ok(CommitKind::Genesis));
    assert_eq!(check_frame(&sc("genesis:start", None)), Err(DecodeError::MissingReservedState));
    assert_eq!(check_frame(&sc("block:1", Some(rs()))), Ok(CommitKind::Block));
    assert_eq!(check_frame(&sc("block:1", None)), Ok(CommitKind::Block));
    assert_eq!(check_frame(&sc("tx:pay", Some(rs()))), Err(DecodeError::UnexpectedReservedState));
    assert_eq!(check_frame(&sc("bogus", None)), Err(DecodeError::InvalidTitle));
}

#[test]
fn branch_names_and_numbering() {
    assert_eq!(decimal(0), "0");
    assert_eq!(decimal(1907), "1907");
    assert_eq!(decimal(u64::MAX), "18446744073709551615");
    assert_eq!(family_branch_name(Family::Agenda, 12), "a-12");
    assert_eq!(family_index(Family::Agenda, "a-12"), Some(12));
    assert_eq!(family_index(Family::Block, "a-12"), None);
    assert_eq!(family_index(Family::Block, "b-"), None);
    assert_eq!(family_index(Family::Block, "b-1x"), None);
    assert_eq!(family_index(Family::Block, "b-99999999999999999999"), None);
    let branches: Vec<String> =
        ["finalized", "a-1", "a-7", "b-3", "work"].iter().map(|s| s.to_string()).collect();
    assert_eq!(next_family_index(Family::Agenda, &branches), Some(8));
    assert_eq!(next_family_index(Family::Block, &branches), Some(4));
    assert_eq!(next_family_index(Family::PreCommit, &branches), Some(1));
    let full = vec![format!("a-{}", u64::MAX)];
    assert_eq!(next_family_index(Family::Agenda, &full), None);
    assert!(is_reserved("fp") && is_reserved("work") && is_reserved("finalized"));
    assert!(!is_reserved("a-1"));
}

#[test]
fn ancestors_merge_guard() {
    // m has two parents
    let walk = vec![entry(9, &[1, 2]), entry(1, &[0]), entry(0, &[])];
    assert_eq!(linear_ancestors(&walk, None), Err(IntegrityError::InvalidRepository));
    // a merge commit further down
    let walk = vec![entry(3, &[2]), entry(2, &[1, 7]), entry(1, &[])];
    assert_eq!(linear_ancestors(&walk, None), Err(IntegrityError::InvalidRepository));
    assert_eq!(linear_ancestors(&vec![], None), Err(IntegrityError::InvalidRepository));
}

#[test]
fn ancestors_linear_history() {
    let walk = vec![entry(3, &[2]), entry(2, &[1]), entry(1, &[0]), entry(0, &[])];
    assert_eq!(linear_ancestors(&walk, None), Ok(vec![h(2), h(1), h(0)]));
    assert_eq!(linear_ancestors(&walk, Some(2)), Ok(vec![h(2), h(1)]));
    assert_eq!(linear_ancestors(&walk, Some(0)), Ok(vec![]));
    // a broken link
    let walk = vec![entry(3, &[5]), entry(2, &[])];
    assert_eq!(linear_ancestors(&walk, None), Err(IntegrityError::InvalidRepository));
}

#[test]
fn new_commits_parent_first() {
    let branch = vec![h(5), h(4), h(3), h(2), h(1)];
    let known = vec![h(3), h(2), h(1)];
    assert_eq!(new_commits(&branch, &known), vec![h(4), h(5)]);
    assert_eq!(commits_since(&branch, &h(3)), Some(vec![h(4), h(5)]));
    assert_eq!(commits_since(&branch, &h(5)), Some(vec![]));
    assert_eq!(commits_since(&branch, &h(8)), None);
}

#[test]
fn clean_deletes_outdated_branch() {
    let fin = h(2);
    let infos = vec![
        BranchInfo { name: "finalized".to_string(), merge_base: h(2) },
        BranchInfo { name: "work".to_string(), merge_base: h(2) },
        BranchInfo { name: "fp".to_string(), merge_base: h(1) },
        BranchInfo { name: "x".to_string(), merge_base: h(1) },
        BranchInfo { name: "a-1".to_string(), merge_base: h(2) },
        BranchInfo { name: "b-2".to_string(), merge_base: h(1) },
    ];
    let deleted = clean_plan(&fin, &infos);
    assert_eq!(deleted, vec!["x".to_string(), "b-2".to_string()]);
    let kept: Vec<BranchInfo> = infos
        .into_iter()
        .filter(|b| !deleted.contains(&b.name))
        .collect();
    assert!(clean_plan(&fin, &kept).is_empty());
}

#[test]
fn fork_detected() {
    assert_eq!(select_finalization(&vec![2, 2]), Err(FinalizationError::FatalFork));
    assert_eq!(select_finalization(&vec![1, 2, 2]), Err(FinalizationError::FatalFork));
    assert_eq!(select_finalization(&vec![]), Ok(None));
    assert_eq!(select_finalization(&vec![1, 3, 2]), Ok(Some((1, vec![0, 2]))));
}

#[test]
fn genesis_bring_up() {
    let genesis = Commit::Genesis(rs());
    let proof = genesis_proof(2, &genesis).unwrap();
    assert!(proof.signatures.is_empty());
    assert_eq!(genesis_proof(3, &genesis), Err(GenesisError::UnexpectedHistory));
    assert_eq!(genesis_proof(2, &tx(1)), Err(GenesisError::NotGenesis));
    let header = last_finalized_header(genesis).unwrap();
    assert_eq!(header, genesis_header());
    assert_eq!(header.height, 0);
    assert!(last_finalized_header(tx(1)).is_err());
}

#[test]
fn agenda_creation() {
    let genesis = genesis_header();
    let events = vec![tx(1), tx(2)];
    let agenda = build_agenda(key(), 77, &genesis, &rs(), &events).unwrap();
    match agenda {
        Commit::Agenda(Agenda { author, timestamp, height, hash }) => {
            assert_eq!(author, key());
            assert_eq!(timestamp, 77);
            assert_eq!(height, 1);
            let txs: Vec<Transaction> = events
                .iter()
                .map(|c| match c {
                    Commit::Transaction(t) => t.clone(),
                    _ => unreachable!(),
                })
                .collect();
            assert_eq!(hash, simperby_repository::encoding::digest_transactions(1, &txs));
            assert_ne!(hash, simperby_repository::encoding::digest_transactions(2, &txs));
        }
        _ => panic!("not an agenda"),
    }
    let bad = vec![tx(1), Commit::Genesis(rs())];
    assert_eq!(
        build_agenda(key(), 77, &genesis, &rs(), &bad),
        Err(AgendaError::NotTransactionPhase)
    );
    let mut top = genesis_header();
    top.height = u64::MAX;
    assert_eq!(build_agenda(key(), 77, &top, &rs(), &events), Err(AgendaError::HeightOverflow));
}

#[test]
fn agenda_planning() {
    let work = vec![h(5), h(4), h(3)];
    assert_eq!(plan_agenda(&h(3), &h(3), &work), Ok(vec![h(4), h(5)]));
    assert_eq!(plan_agenda(&h(3), &h(1), &work), Err(AgendaError::NotRebased));
    assert_eq!(plan_agenda(&h(0), &h(0), &work), Err(AgendaError::TooFarFromFinalized));
}

#[test]
fn sync_rejects_non_descendant() {
    assert_eq!(plan_sync(&vec![h(3), h(2)], &h(1)), Err(FinalizationError::NotDescendant));
    assert_eq!(plan_sync(&vec![h(3), h(2), h(1)], &h(1)), Ok(vec![h(2), h(3)]));
    let none = FinalizationProof { signatures: vec![] };
    assert_eq!(
        check_finalization(&genesis_header(), &rs(), &vec![tx(1)], &none),
        Err(FinalizationError::NotABlock)
    );
    assert_eq!(
        check_finalization(&genesis_header(), &rs(), &vec![], &none),
        Err(FinalizationError::NotABlock)
    );
}

#[test]
fn integrate_branch_decisions() {
    let fin = h(1);
    let header = genesis_header();
    let fp = FinalizationProof { signatures: vec![] };
    let names: Vec<String> = ["finalized", "work", "fp", "a-2"].iter().map(|s| s.to_string()).collect();
    let outdated = integrate_branch(&fin, &header, &rs(), &fp, &names, &h(0), &Some(vec![tx(1)]));
    assert!(matches!(outdated, BranchAction::Delete));
    let undecodable = integrate_branch(&fin, &header, &rs(), &fp, &names, &fin, &None);
    assert!(matches!(undecodable, BranchAction::Delete));
    let nothing = integrate_branch(&fin, &header, &rs(), &fp, &names, &fin, &Some(vec![]));
    assert!(matches!(nothing, BranchAction::Keep));
    let txs = integrate_branch(&fin, &header, &rs(), &fp, &names, &fin, &Some(vec![tx(1), tx(2)]));
    assert!(matches!(txs, BranchAction::Move));
    let agenda = build_agenda(key(), 1, &header, &rs(), &vec![tx(1)]).unwrap();
    let with_agenda =
        integrate_branch(&fin, &header, &rs(), &fp, &names, &fin, &Some(vec![tx(1), agenda]));
    match with_agenda {
        BranchAction::Create(name) => assert_eq!(name, "a-3"),
        _ => panic!("expected a new agenda branch"),
    }
    let invalid = integrate_branch(&fin, &header, &rs(), &fp, &names, &fin, &Some(vec![Commit::Genesis(rs())]));
    assert!(matches!(invalid, BranchAction::Delete));
}

#[test]
fn remote_names_from_identity() {
    assert_eq!(hex(&[0x00, 0xab, 0x7f]), "00ab7f");
    let empty = PublicKey { key: vec![] };
    assert_eq!(
        remote_name(&empty),
        "c5d2460186f7233c927e7db2dcc703c0e500b653ca82273b7bfad8045d85a470"
    );
    let peers = vec![Peer { identity: empty.clone(), address: "git://peer/a".to_string(), metadata: None }];
    let remotes = remotes_for(&peers);
    assert_eq!(remotes.len(), 1);
    assert_eq!(remotes[0].1, "git://peer/a");
    assert!(remotes_for(&vec![]).is_empty());
    let h0 = Hash256 { hash: [0; 32] };
    assert_ne!(h0, simperby_repository::encoding::digest_header(&genesis_header()));
}

#[test]
fn fetch_session_records_outcomes() {
    let fin = h(1);
    let names: Vec<String> = ["finalized", "work", "fp", "a-2"].iter().map(|s| s.to_string()).collect();
    let mut session = FetchSession::new(fin, genesis_header(), rs(), FinalizationProof { signatures: vec![] }, names);
    let agenda = build_agenda(key(), 1, &genesis_header(), &rs(), &vec![tx(1)]).unwrap();
    let first = session.on_branch("peer-1".to_string(), h(7), &fin, &Some(vec![tx(1), agenda.clone()]));
    assert!(matches!(first, BranchAction::Create(ref n) if n == "a-3"));
    let second = session.on_branch("peer-2".to_string(), h(8), &fin, &Some(vec![tx(1), agenda]));
    assert!(matches!(second, BranchAction::Create(ref n) if n == "a-4"));
    assert!(session.names.contains(&"a-4".to_string()));
    assert!(session.candidates.is_empty());
    assert!(matches!(session.finish(), Ok(None)));
}
