use dag_store::validators::index_of;
use dag_store::{
    Author, CertifiedNode, Dag, DagError, DagStorage, Digest, EpochState, NodeCertificate,
    NodeMetadata, NodeStatus, StatusTag, StorageError, ValidatorInfo, ValidatorVerifier,
    VerifyError,
};
use std::cell::{Cell, RefCell};
use std::sync::Arc;

const EPOCH: u64 = 7;

struct MemStorage {
    nodes: RefCell<Vec<(Digest, CertifiedNode)>>,
    deleted: RefCell<Vec<Digest>>,
    fail_save: Cell<bool>,
    fail_read: Cell<bool>,
    fail_delete: Cell<bool>,
}

impl MemStorage {
    fn holding(nodes: Vec<(Digest, CertifiedNode)>) -> Arc<MemStorage> {
        Arc::new(MemStorage {
            nodes: RefCell::new(nodes),
            deleted: RefCell::new(Vec::new()),
            fail_save: Cell::new(false),
            fail_read: Cell::new(false),
            fail_delete: Cell::new(false),
        })
    }

    fn empty() -> Arc<MemStorage> {
        MemStorage::holding(Vec::new())
    }
}

fn failure(what: &str) -> StorageError {
    StorageError { message: what.to_string() }
}

impl DagStorage for MemStorage {
    fn save_certified_node(&self, node: &CertifiedNode) -> Result<(), StorageError> {
        if self.fail_save.get() {
            return Err(failure("save failed"));
        }
        let tag = self.nodes.borrow().len() as u8;
        self.nodes.borrow_mut().push((digest(tag), node.clone()));
        Ok(())
    }

    fn get_certified_nodes(&self) -> Result<Vec<(Digest, CertifiedNode)>, StorageError> {
        if self.fail_read.get() {
            return Err(failure("read failed"));
        }
        Ok(self.nodes.borrow().clone())
    }

    fn delete_certified_nodes(&self, digests: Vec<Digest>) -> Result<(), StorageError> {
        if self.fail_delete.get() {
            return Err(failure("delete failed"));
        }
        self.deleted.borrow_mut().extend(digests);
        Ok(())
    }
}

fn author(tag: u8) -> Author {
    let mut bytes = [0u8; 32];
    bytes[31] = tag;
    Author::new(bytes)
}

fn digest(tag: u8) -> Digest {
    let mut bytes = [0u8; 32];
    bytes[0] = tag;
    Digest { bytes }
}

fn meta(round: u64, who: u8) -> NodeMetadata {
    NodeMetadata::new(EPOCH, round, author(who))
}

fn cert(round: u64, who: u8) -> NodeCertificate {
    NodeCertificate::new(meta(round, who), vec![who, round as u8])
}

fn node(round: u64, who: u8, parents: Vec<NodeCertificate>) -> CertifiedNode {
    CertifiedNode::new(meta(round, who), parents, vec![who, round as u8])
}

fn node_in_epoch(epoch: u64, round: u64, who: u8) -> CertifiedNode {
    CertifiedNode::new(NodeMetadata::new(epoch, round, author(who)), Vec::new(), vec![who])
}

fn weighted(powers: &[u64], quorum: u128) -> ValidatorVerifier {
    let mut validators = Vec::new();
    for (i, p) in powers.iter().enumerate() {
        validators.push(ValidatorInfo { address: author(i as u8 + 1), voting_power: *p });
    }
    ValidatorVerifier::new(validators, quorum)
}

fn four_validators() -> ValidatorVerifier {
    weighted(&[1, 1, 1, 1], 3)
}

fn epoch_state(verifier: ValidatorVerifier) -> Arc<EpochState> {
    Arc::new(EpochState { epoch: EPOCH, verifier })
}

fn fresh(storage: Arc<MemStorage>) -> Dag<MemStorage> {
    Dag::new(epoch_state(four_validators()), storage).expect("store")
}

const A: u8 = 1;
const B: u8 = 2;
const C: u8 = 3;
const D: u8 = 4;

#[test]
fn empty_store_has_round_zero_bounds() {
    let dag = fresh(MemStorage::empty());
    assert_eq!(dag.lowest_round(), 0);
    assert_eq!(dag.highest_round(), 0);
    assert!(!dag.node_exists(&meta(0, A)));
    assert!(dag.get_node(&meta(0, A)).is_none());
    assert!(dag.bitmask().is_empty());
    assert!(dag.get_strong_links_for_round(0, &four_validators()).is_none());
}

#[test]
fn four_validator_scenario() {
    let storage = MemStorage::empty();
    let mut dag = fresh(storage.clone());
    let verifier = four_validators();
    assert_eq!(dag.add_node(node(0, A, vec![])), Ok(()));
    assert_eq!(dag.add_node(node(0, B, vec![])), Ok(()));
    assert!(dag.get_strong_links_for_round(0, &verifier).is_none());
    assert_eq!(dag.add_node(node(0, C, vec![])), Ok(()));
    let links = dag.get_strong_links_for_round(0, &verifier).expect("quorum");
    assert_eq!(links, vec![cert(0, A), cert(0, B), cert(0, C)]);
    assert_eq!(dag.add_node(node(1, A, links)), Ok(()));
    assert_eq!(dag.add_node(node(0, A, vec![])), Err(DagError::DuplicateNode));
    assert_eq!(dag.add_node(node(1, D, vec![cert(0, D)])), Err(DagError::MissingParent));
    assert_eq!(dag.highest_round(), 1);
    assert_eq!(dag.lowest_round(), 0);
    assert_eq!(storage.nodes.borrow().len(), 4);
}

#[test]
fn round_two_is_too_high_while_round_one_is_empty() {
    let mut dag = fresh(MemStorage::empty());
    assert_eq!(dag.add_node(node(0, A, vec![])), Ok(()));
    assert_eq!(dag.add_node(node(2, A, vec![])), Err(DagError::RoundTooHigh));
    assert_eq!(dag.highest_round(), 0);
    assert!(!dag.node_exists(&meta(2, A)));
    assert_eq!(dag.bitmask(), vec![vec![true, false, false, false]]);
}

#[test]
fn first_node_may_open_round_one() {
    let mut dag = fresh(MemStorage::empty());
    assert_eq!(dag.add_node(node(1, B, vec![])), Ok(()));
    assert_eq!(dag.lowest_round(), 1);
    assert_eq!(dag.highest_round(), 1);
    assert_eq!(dag.add_node(node(0, B, vec![])), Err(DagError::RoundTooLow));
    assert_eq!(dag.add_node(node(3, B, vec![])), Err(DagError::RoundTooHigh));
    assert_eq!(dag.add_node(node(2, B, vec![])), Ok(()));
}

#[test]
fn highest_round_at_the_top_of_the_range() {
    let stored = vec![(digest(1), node(u64::MAX, A, vec![]))];
    let mut dag = fresh(MemStorage::holding(stored));
    assert_eq!(dag.highest_round(), u64::MAX);
    assert_eq!(dag.add_node(node(u64::MAX, B, vec![])), Ok(()));
    assert_eq!(dag.add_node(node(u64::MAX - 1, B, vec![])), Err(DagError::RoundTooLow));
}

#[test]
fn unknown_author_is_refused_first() {
    let mut dag = fresh(MemStorage::empty());
    assert_eq!(dag.add_node(node(9, 77, vec![cert(0, A)])), Err(DagError::UnknownAuthor));
    assert_eq!(dag.check_admission(&node(0, 77, vec![])), Err(DagError::UnknownAuthor));
}

#[test]
fn checks_come_in_order() {
    let stored = vec![(digest(1), node(5, A, vec![])), (digest(2), node(7, B, vec![]))];
    let mut dag = fresh(MemStorage::holding(stored));
    assert_eq!(dag.lowest_round(), 5);
    assert_eq!(dag.highest_round(), 7);
    // too low wins over a missing parent
    assert_eq!(dag.add_node(node(4, C, vec![cert(3, A)])), Err(DagError::RoundTooLow));
    // too high wins over a missing parent
    assert_eq!(dag.add_node(node(9, C, vec![cert(3, A)])), Err(DagError::RoundTooHigh));
    // a missing parent wins over a taken slot
    assert_eq!(dag.add_node(node(5, A, vec![cert(3, A)])), Err(DagError::MissingParent));
    assert_eq!(dag.add_node(node(5, A, vec![])), Err(DagError::DuplicateNode));
    assert_eq!(dag.check_admission(&node(8, C, vec![cert(5, A), cert(7, B)])), Ok(2));
    assert_eq!(dag.add_node(node(8, C, vec![cert(5, A), cert(7, B)])), Ok(()));
    assert_eq!(dag.add_node(node(6, D, vec![])), Ok(()));
    assert_eq!(dag.highest_round(), 8);
    assert_eq!(dag.lowest_round(), 5);
}

#[test]
fn parent_of_unknown_author_is_missing() {
    let mut dag = fresh(MemStorage::empty());
    assert_eq!(dag.add_node(node(0, A, vec![])), Ok(()));
    assert_eq!(dag.add_node(node(1, A, vec![cert(0, 77)])), Err(DagError::MissingParent));
}

#[test]
fn failed_persistence_leaves_node_invisible() {
    let storage = MemStorage::empty();
    let mut dag = fresh(storage.clone());
    assert_eq!(dag.add_node(node(0, A, vec![])), Ok(()));
    storage.fail_save.set(true);
    assert_eq!(
        dag.add_node(node(1, B, vec![cert(0, A)])),
        Err(DagError::PersistenceError(failure("save failed")))
    );
    assert!(!dag.node_exists(&meta(1, B)));
    assert!(dag.get_node(&meta(1, B)).is_none());
    assert_eq!(dag.highest_round(), 0);
    assert_eq!(dag.bitmask(), vec![vec![true, false, false, false]]);
    storage.fail_save.set(false);
    assert_eq!(dag.add_node(node(1, B, vec![cert(0, A)])), Ok(()));
    assert!(dag.node_exists(&meta(1, B)));
}

#[test]
fn invalid_node_is_never_persisted() {
    let storage = MemStorage::empty();
    let mut dag = fresh(storage.clone());
    assert_eq!(dag.add_node(node(5, A, vec![])), Err(DagError::RoundTooHigh));
    assert_eq!(dag.add_node(node(0, A, vec![cert(0, B)])), Err(DagError::MissingParent));
    assert!(storage.nodes.borrow().is_empty());
}

#[test]
fn complete_admission_follows_the_storage_answer() {
    let mut dag = fresh(MemStorage::empty());
    let n = node(0, C, vec![]);
    let index = dag.check_admission(&n).expect("admissible");
    assert_eq!(index, 2);
    let refused = dag.complete_admission(Arc::new(n.clone()), index, Err(failure("disk")));
    assert_eq!(refused, Err(DagError::PersistenceError(failure("disk"))));
    assert!(!dag.node_exists(&meta(0, C)));
    assert_eq!(dag.complete_admission(Arc::new(n.clone()), index, Ok(())), Ok(()));
    assert_eq!(dag.get_node(&meta(0, C)).as_deref(), Some(&n));
}

#[test]
fn get_node_returns_the_stored_node() {
    let mut dag = fresh(MemStorage::empty());
    let a = node(0, A, vec![]);
    let b = node(0, B, vec![]);
    dag.add_node(a.clone()).unwrap();
    dag.add_node(b.clone()).unwrap();
    assert_eq!(dag.get_node(&meta(0, A)).as_deref(), Some(&a));
    assert_eq!(dag.get_node(&meta(0, B)).as_deref(), Some(&b));
    assert!(dag.get_node(&meta(0, C)).is_none());
    assert!(dag.get_node(&meta(1, A)).is_none());
    // the epoch of the key plays no part in the lookup
    assert!(dag.node_exists(&NodeMetadata::new(EPOCH + 1, 0, author(A))));
}

#[test]
fn all_exists_needs_every_certificate() {
    let mut dag = fresh(MemStorage::empty());
    dag.add_node(node(0, A, vec![])).unwrap();
    dag.add_node(node(0, B, vec![])).unwrap();
    assert!(dag.all_exists(&[]));
    assert!(dag.all_exists(&[cert(0, A), cert(0, B)]));
    assert!(!dag.all_exists(&[cert(0, A), cert(0, C)]));
    assert!(!dag.all_exists(&[cert(1, A)]));
}

#[test]
fn quorum_goes_by_weight_not_by_count() {
    let verifier = weighted(&[5, 1, 1, 1], 6);
    let mut dag = Dag::new(epoch_state(verifier.clone()), MemStorage::empty()).expect("store");
    dag.add_node(node(0, B, vec![])).unwrap();
    dag.add_node(node(0, C, vec![])).unwrap();
    dag.add_node(node(0, D, vec![])).unwrap();
    // three of four authors, but only weight 3 of 8
    assert!(dag.get_strong_links_for_round(0, &verifier).is_none());
    dag.add_node(node(0, A, vec![])).unwrap();
    let links = dag.get_strong_links_for_round(0, &verifier).expect("quorum");
    assert_eq!(links, vec![cert(0, A), cert(0, B), cert(0, C), cert(0, D)]);
    assert!(dag.get_strong_links_for_round(1, &verifier).is_none());
}

#[test]
fn two_heavy_authors_suffice() {
    let verifier = weighted(&[5, 1, 1, 1], 6);
    let mut dag = Dag::new(epoch_state(verifier.clone()), MemStorage::empty()).expect("store");
    dag.add_node(node(0, A, vec![])).unwrap();
    assert!(dag.get_strong_links_for_round(0, &verifier).is_none());
    dag.add_node(node(0, C, vec![])).unwrap();
    assert_eq!(dag.get_strong_links_for_round(0, &verifier), Some(vec![cert(0, A), cert(0, C)]));
    // one more node keeps the quorum
    dag.add_node(node(0, D, vec![])).unwrap();
    assert_eq!(
        dag.get_strong_links_for_round(0, &verifier),
        Some(vec![cert(0, A), cert(0, C), cert(0, D)])
    );
}

#[test]
fn strong_links_given_follows_the_flag() {
    let mut dag = fresh(MemStorage::empty());
    dag.add_node(node(0, D, vec![])).unwrap();
    dag.add_node(node(0, B, vec![])).unwrap();
    assert_eq!(dag.authors_in_round(0), Some(vec![author(B), author(D)]));
    assert_eq!(dag.authors_in_round(1), None);
    assert_eq!(dag.certificates_in_round(0), Some(vec![cert(0, B), cert(0, D)]));
    assert_eq!(dag.strong_links_given(0, true), Some(vec![cert(0, B), cert(0, D)]));
    assert_eq!(dag.strong_links_given(0, false), None);
    assert_eq!(dag.strong_links_given(1, true), None);
}

#[test]
fn voting_power_verdicts() {
    let verifier = weighted(&[5, 1, 1, 1], 6);
    assert_eq!(verifier.get_voting_power(&author(A)), Some(5));
    assert_eq!(verifier.get_voting_power(&author(9)), None);
    assert_eq!(verifier.check_voting_power(&vec![author(A), author(B)]), Ok(()));
    assert_eq!(
        verifier.check_voting_power(&vec![author(B), author(C)]),
        Err(VerifyError::TooLittleVotingPower { voting_power: 2, expected_voting_power: 6 })
    );
    assert_eq!(
        verifier.check_voting_power(&vec![]),
        Err(VerifyError::TooLittleVotingPower { voting_power: 0, expected_voting_power: 6 })
    );
    assert_eq!(
        verifier.check_voting_power(&vec![author(A), author(9), author(B)]),
        Err(VerifyError::UnknownAuthor)
    );
    assert_eq!(weighted(&[], 0).check_voting_power(&vec![]), Ok(()));
    let heavy = weighted(&[u64::MAX, u64::MAX], u64::MAX as u128 * 2);
    assert_eq!(heavy.check_voting_power(&vec![author(A), author(B)]), Ok(()));
    assert_eq!(
        heavy.check_voting_power(&vec![author(A)]),
        Err(VerifyError::TooLittleVotingPower {
            voting_power: u64::MAX as u128,
            expected_voting_power: u64::MAX as u128 * 2,
        })
    );
}

#[test]
fn author_index_is_the_first_position() {
    let authors = four_validators().address_to_validator_index();
    assert_eq!(authors, vec![author(A), author(B), author(C), author(D)]);
    assert_eq!(index_of(&authors, &author(A)), Some(0));
    assert_eq!(index_of(&authors, &author(D)), Some(3));
    assert_eq!(index_of(&authors, &author(5)), None);
    let doubled = vec![author(B), author(A), author(B)];
    assert_eq!(index_of(&doubled, &author(B)), Some(0));
    assert!(author(A).same(&author(A)));
    assert!(!author(A).same(&author(B)));
    let mut other = [0u8; 32];
    other[0] = 1;
    other[31] = A;
    assert!(!author(A).same(&Author::new(other)));
}

#[test]
fn status_moves_forward_only() {
    let mut dag = fresh(MemStorage::empty());
    let a = node(0, A, vec![]);
    dag.add_node(a.clone()).unwrap();
    assert_eq!(dag.update_status(&meta(0, A), StatusTag::Unordered), Err(DagError::InvalidTransition));
    assert_eq!(dag.update_status(&meta(0, A), StatusTag::Ordered), Ok(()));
    assert_eq!(dag.update_status(&meta(0, A), StatusTag::Ordered), Err(DagError::InvalidTransition));
    assert_eq!(dag.update_status(&meta(0, A), StatusTag::Unordered), Err(DagError::InvalidTransition));
    assert_eq!(dag.update_status(&meta(0, A), StatusTag::Committed), Ok(()));
    assert_eq!(dag.update_status(&meta(0, A), StatusTag::Unordered), Err(DagError::InvalidTransition));
    assert_eq!(dag.update_status(&meta(0, A), StatusTag::Ordered), Err(DagError::InvalidTransition));
    assert_eq!(dag.update_status(&meta(0, A), StatusTag::Committed), Err(DagError::InvalidTransition));
    // the node is the same one and still counts
    assert_eq!(dag.get_node(&meta(0, A)).as_deref(), Some(&a));
    assert_eq!(dag.add_node(node(0, A, vec![])), Err(DagError::DuplicateNode));
}

#[test]
fn status_of_absent_node_is_not_found() {
    let mut dag = fresh(MemStorage::empty());
    dag.add_node(node(0, A, vec![])).unwrap();
    assert_eq!(dag.update_status(&meta(0, B), StatusTag::Ordered), Err(DagError::NotFound));
    assert_eq!(dag.update_status(&meta(1, A), StatusTag::Ordered), Err(DagError::NotFound));
    assert_eq!(dag.update_status(&meta(0, 77), StatusTag::Committed), Err(DagError::NotFound));
    assert_eq!(dag.bitmask(), vec![vec![true, false, false, false]]);
}

#[test]
fn node_status_tags() {
    let n = Arc::new(node(3, B, vec![]));
    let unordered = NodeStatus::Unordered(n.clone());
    let ordered = NodeStatus::with_tag(StatusTag::Ordered, n.clone());
    let committed = NodeStatus::Committed(n.clone());
    assert_eq!(unordered.tag(), StatusTag::Unordered);
    assert_eq!(ordered.tag(), StatusTag::Ordered);
    assert_eq!(committed.tag(), StatusTag::Committed);
    assert!(Arc::ptr_eq(unordered.as_node(), &n));
    assert!(Arc::ptr_eq(ordered.as_node(), &n));
    assert!(Arc::ptr_eq(committed.as_node(), &n));
    assert!(StatusTag::Unordered.precedes(StatusTag::Ordered));
    assert!(StatusTag::Unordered.precedes(StatusTag::Committed));
    assert!(StatusTag::Ordered.precedes(StatusTag::Committed));
    assert!(!StatusTag::Committed.precedes(StatusTag::Unordered));
    assert!(!StatusTag::Ordered.precedes(StatusTag::Ordered));
}

#[test]
fn rehydration_drops_stale_epochs() {
    let stored = vec![
        (digest(10), node_in_epoch(EPOCH - 1, 0, A)),
        (digest(11), node(3, B, vec![])),
        (digest(12), node_in_epoch(EPOCH + 1, 9, C)),
        (digest(13), node(4, D, vec![])),
    ];
    let storage = MemStorage::holding(stored);
    let dag = fresh(storage.clone());
    assert_eq!(*storage.deleted.borrow(), vec![digest(10), digest(12)]);
    assert_eq!(dag.lowest_round(), 3);
    assert_eq!(dag.highest_round(), 4);
    assert!(dag.node_exists(&meta(3, B)));
    assert!(dag.node_exists(&meta(4, D)));
    assert!(!dag.node_exists(&meta(0, A)));
    assert!(!dag.node_exists(&meta(9, C)));
    assert_eq!(
        dag.bitmask(),
        vec![vec![false, true, false, false], vec![false, false, false, true]]
    );
}

#[test]
fn rehydration_matches_admission() {
    let storage = MemStorage::empty();
    let mut first = fresh(storage.clone());
    let nodes = vec![
        node(0, A, vec![]),
        node(0, B, vec![]),
        node(0, C, vec![]),
        node(1, A, vec![cert(0, A), cert(0, B), cert(0, C)]),
        node(1, D, vec![cert(0, B)]),
    ];
    for n in nodes.iter() {
        assert_eq!(first.add_node(n.clone()), Ok(()));
    }
    let second = fresh(storage.clone());
    assert!(storage.deleted.borrow().is_empty());
    assert_eq!(second.lowest_round(), first.lowest_round());
    assert_eq!(second.highest_round(), first.highest_round());
    assert_eq!(second.bitmask(), first.bitmask());
    for n in nodes.iter() {
        assert!(second.node_exists(n.metadata()));
        assert_eq!(second.get_node(n.metadata()).as_deref(), Some(n));
    }
    assert!(!second.node_exists(&meta(1, B)));
    let verifier = four_validators();
    assert_eq!(
        second.get_strong_links_for_round(0, &verifier),
        first.get_strong_links_for_round(0, &verifier)
    );
    assert_eq!(second.get_strong_links_for_round(1, &verifier), None);
}

#[test]
fn rehydration_keeps_gaps_between_rounds() {
    let stored = vec![(digest(1), node(2, A, vec![])), (digest(2), node(4, C, vec![]))];
    let dag = fresh(MemStorage::holding(stored));
    assert_eq!(
        dag.bitmask(),
        vec![
            vec![true, false, false, false],
            vec![false, false, false, false],
            vec![false, false, true, false],
        ]
    );
}

#[test]
fn stored_node_of_unknown_author_stops_construction() {
    let stored = vec![(digest(1), node(0, A, vec![])), (digest(2), node(0, 77, vec![]))];
    let storage = MemStorage::holding(stored.clone());
    assert!(Dag::new(epoch_state(four_validators()), storage.clone()).is_none());
    assert!(storage.deleted.borrow().is_empty());
    assert!(Dag::from_nodes(epoch_state(four_validators()), storage, stored).is_none());
}

#[test]
fn stale_node_of_unknown_author_is_only_deleted() {
    let stored = vec![(digest(5), node_in_epoch(EPOCH - 1, 0, 77))];
    let storage = MemStorage::holding(stored);
    let dag = fresh(storage.clone());
    assert_eq!(*storage.deleted.borrow(), vec![digest(5)]);
    assert_eq!(dag.highest_round(), 0);
    assert!(dag.bitmask().is_empty());
}

#[test]
fn unreadable_storage_counts_as_empty() {
    let storage = MemStorage::holding(vec![(digest(1), node(3, A, vec![]))]);
    storage.fail_read.set(true);
    let dag = fresh(storage);
    assert_eq!(dag.lowest_round(), 0);
    assert_eq!(dag.highest_round(), 0);
    assert!(!dag.node_exists(&meta(3, A)));
}

#[test]
fn failed_deletion_is_passed_over() {
    let stored = vec![(digest(1), node_in_epoch(EPOCH - 1, 0, A)), (digest(2), node(1, B, vec![]))];
    let storage = MemStorage::holding(stored);
    storage.fail_delete.set(true);
    let dag = fresh(storage.clone());
    assert!(dag.node_exists(&meta(1, B)));
    assert!(!dag.node_exists(&meta(0, A)));
    assert!(storage.deleted.borrow().is_empty());
}

#[test]
fn from_nodes_returns_the_stale_identifiers() {
    let stored = vec![
        (digest(1), node_in_epoch(EPOCH + 2, 0, B)),
        (digest(2), node(6, B, vec![])),
        (digest(3), node_in_epoch(0, 1, C)),
    ];
    let (dag, expired) =
        Dag::from_nodes(epoch_state(four_validators()), MemStorage::empty(), stored).expect("store");
    assert_eq!(expired, vec![digest(1), digest(3)]);
    assert_eq!(dag.lowest_round(), 6);
    assert_eq!(dag.highest_round(), 6);
    assert_eq!(dag.get_node(&meta(6, B)).as_deref(), Some(&node(6, B, vec![])));
}

#[test]
fn later_stored_node_takes_a_contested_slot() {
    let first = CertifiedNode::new(meta(2, A), vec![], vec![1]);
    let second = CertifiedNode::new(meta(2, A), vec![], vec![2]);
    let stored = vec![(digest(1), first), (digest(2), second.clone())];
    let dag = fresh(MemStorage::holding(stored));
    assert_eq!(dag.get_node(&meta(2, A)).as_deref(), Some(&second));
}

#[test]
fn certificate_copies_metadata_and_signatures() {
    let n = CertifiedNode::new(meta(4, C), vec![cert(3, A)], vec![9, 8, 7]);
    let c = n.certificate();
    assert_eq!(c.metadata(), &meta(4, C));
    assert_eq!(c.signatures(), &vec![9, 8, 7]);
    assert_eq!(n.parents(), &vec![cert(3, A)]);
    assert_eq!(n.metadata().epoch(), EPOCH);
    assert_eq!(n.metadata().round(), 4);
    assert_eq!(n.metadata().author(), &author(C));
}
