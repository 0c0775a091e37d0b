//! The store itself: a round-ordered index of slot rows over a persistence
//! layer.

use crate::model::{
    admission_verdict, all_present, authors_known, bitmask_of, cert_views, empty_row,
    expired_digests, highest_of, lemma_bounds_of_empty, lemma_highest_is, lemma_lowest_is,
    loaded_rows, lowest_of, occupancy, place, present, present_authors, present_certificates,
    quorum_at, retag, row_or_empty, rows_wf, slot_at, strong_links, transition_verdict, DagError,
    Rows, Slot,
};
use crate::status::{share, NodeStatus, StatusTag};
use crate::storage::{DagStorage, StorageError};
use crate::types::{Author, CertifiedNode, Digest, NodeCertificate, NodeMetadata, Round};
use crate::validators::{addresses_of, index_of, is_index_of, EpochState, ValidatorVerifier};
use std::collections::BTreeMap;
use std::sync::Arc;
use vstd::prelude::*;

verus! {

broadcast use {vstd::std_specs::btree::group_btree_axioms, vstd::laws_cmp::group_laws_cmp};

/// A stored slot as a plain value.
pub open spec fn slot_view(s: Option<NodeStatus>) -> Slot {
    match s {
        Some(st) => Some(st@),
        None => None,
    }
}

/// A stored row as a sequence of plain values.
pub open spec fn row_view(row: Seq<Option<NodeStatus>>) -> Seq<Slot> {
    Seq::new(row.len(), |i: int| slot_view(row[i]))
}

/// The least key of the index.
///
/// Wraps `BTreeMap::first_key_value`, which returns the entry with the
/// minimum key, or nothing where the map is empty.
#[verifier::external_body]
fn first_round(m: &BTreeMap<Round, Vec<Option<NodeStatus>>>) -> (r: Option<Round>)
    ensures
        match r {
            Some(k) => m@.contains_key(k) && forall|j: u64| m@.contains_key(j) ==> k <= j,
            None => forall|j: u64| !m@.contains_key(j),
        },
{
    match m.first_key_value() {
        Some((round, _)) => Some(*round),
        None => None,
    }
}

/// The greatest key of the index.
///
/// Wraps `BTreeMap::last_key_value`, which returns the entry with the
/// maximum key, or nothing where the map is empty.
#[verifier::external_body]
fn last_round(m: &BTreeMap<Round, Vec<Option<NodeStatus>>>) -> (r: Option<Round>)
    ensures
        match r {
            Some(k) => m@.contains_key(k) && forall|j: u64| m@.contains_key(j) ==> j <= k,
            None => forall|j: u64| !m@.contains_key(j),
        },
{
    match m.last_key_value() {
        Some((round, _)) => Some(*round),
        None => None,
    }
}

/// A row of `n` empty slots.
fn vacant_row(n: usize) -> (row: Vec<Option<NodeStatus>>)
    ensures
        row@.len() == n,
        row_view(row@) == empty_row(n as nat),
{
    let mut row: Vec<Option<NodeStatus>> = Vec::new();
    let mut i: usize = 0;
    while i < n
        invariant
            i <= n,
            row@.len() == i,
            forall|k: int| 0 <= k < i ==> row@[k] is None,
        decreases n - i,
    {
        row.push(None);
        i += 1;
    }
    assert(row_view(row@) =~= empty_row(n as nat));
    row
}

/// An index of rows as a map of plain values.
pub open spec fn index_view(m: Map<u64, Vec<Option<NodeStatus>>>) -> Rows {
    Map::new(|r: u64| m.contains_key(r), |r: u64| row_view(m[r]@))
}

/// Writes `status` into slot `index` of `round`, creating the row where the
/// round is not indexed yet.
fn write_slot(
    m: &mut BTreeMap<Round, Vec<Option<NodeStatus>>>,
    n: usize,
    round: Round,
    index: usize,
    status: NodeStatus,
)
    requires
        rows_wf(index_view(old(m)@), n as nat),
        index < n,
    ensures
        rows_wf(index_view(final(m)@), n as nat),
        index_view(final(m)@) == index_view(old(m)@).insert(
            round,
            row_or_empty(index_view(old(m)@), round, n as nat).update(index as int, Some(status@)),
        ),
{
    let ghost before = index_view(m@);
    let mut row = match m.remove(&round) {
        Some(row) => {
            assert(before.contains_key(round));
            assert(before[round].len() == row@.len());
            row
        },
        None => vacant_row(n),
    };
    let ghost base = row_view(row@);
    assert(base == row_or_empty(before, round, n as nat));
    row.set(index, Some(status));
    assert(row_view(row@) =~= base.update(index as int, Some(status@)));
    m.insert(round, row);
    assert(index_view(m@) =~= before.insert(round, base.update(index as int, Some(status@))));
    assert forall|r: u64| index_view(m@).contains_key(r) implies (#[trigger] index_view(m@)[r]).len()
        == n by {
        if r != round {
            assert(before.contains_key(r));
        }
    }
}

/// The DAG of one epoch: certified nodes indexed by round and by the dense
/// index of their author.
pub struct Dag<S: DagStorage> {
    nodes_by_round: BTreeMap<Round, Vec<Option<NodeStatus>>>,
    /// Position `i` holds the author whose slot index is `i`.
    author_to_index: Vec<Author>,
    storage: Arc<S>,
}

impl<S: DagStorage> Dag<S> {
    /// The validators in index order.
    pub closed spec fn authors(&self) -> Seq<Author> {
        self.author_to_index@
    }

    /// The contents of the store.
    pub closed spec fn rows(&self) -> Rows {
        index_view(self.nodes_by_round@)
    }

    /// Every row has one slot per validator.
    pub open spec fn wf(&self) -> bool {
        rows_wf(self.rows(), self.authors().len())
    }

    /// The least indexed round, or 0 where the store is empty.
    pub fn lowest_round(&self) -> (r: Round)
        ensures
            r == lowest_of(self.rows()),
    {
        match first_round(&self.nodes_by_round) {
            Some(k) => {
                proof {
                    lemma_lowest_is(self.rows(), k);
                }
                k
            },
            None => {
                proof {
                    lemma_bounds_of_empty(self.rows());
                }
                0
            },
        }
    }

    /// The greatest indexed round, or 0 where the store is empty.
    pub fn highest_round(&self) -> (r: Round)
        ensures
            r == highest_of(self.rows()),
    {
        match last_round(&self.nodes_by_round) {
            Some(k) => {
                proof {
                    lemma_highest_is(self.rows(), k);
                }
                k
            },
            None => {
                proof {
                    lemma_bounds_of_empty(self.rows());
                }
                0
            },
        }
    }

    fn get_node_ref(&self, metadata: &NodeMetadata) -> (r: Option<&NodeStatus>)
        requires
            self.wf(),
        ensures
            match r {
                Some(s) => slot_at(self.rows(), self.authors(), *metadata) == Some(s@),
                None => slot_at(self.rows(), self.authors(), *metadata) is None,
            },
    {
        let index = match index_of(&self.author_to_index, metadata.author()) {
            Some(i) => i,
            None => {
                return None;
            },
        };
        let round = metadata.round();
        match self.nodes_by_round.get(&round) {
            Some(row) => {
                assert(self.rows().contains_key(round));
                assert(self.rows()[round].len() == row@.len());
                row[index].as_ref()
            },
            None => None,
        }
    }

    /// Whether a node is stored at the round and author of `metadata`.
    pub fn node_exists(&self, metadata: &NodeMetadata) -> (r: bool)
        requires
            self.wf(),
        ensures
            r == present(self.rows(), self.authors(), *metadata),
    {
        self.get_node_ref(metadata).is_some()
    }

    /// Whether a node is stored under the metadata of every certificate.
    pub fn all_exists(&self, nodes: &[NodeCertificate]) -> (r: bool)
        requires
            self.wf(),
        ensures
            r == all_present(self.rows(), self.authors(), nodes@),
    {
        let mut i: usize = 0;
        while i < nodes.len()
            invariant
                self.wf(),
                i <= nodes.len(),
                forall|k: int|
                    0 <= k < i ==> present(
                        self.rows(),
                        self.authors(),
                        (#[trigger] nodes@[k]).metadata,
                    ),
            decreases nodes.len() - i,
        {
            if !self.node_exists(nodes[i].metadata()) {
                return false;
            }
            i += 1;
        }
        true
    }

    /// The node stored under `metadata`, whatever its status.
    pub fn get_node(&self, metadata: &NodeMetadata) -> (r: Option<Arc<CertifiedNode>>)
        requires
            self.wf(),
        ensures
            match r {
                Some(node) => slot_at(self.rows(), self.authors(), *metadata) matches Some(s)
                    && s.1 == *node,
                None => slot_at(self.rows(), self.authors(), *metadata) is None,
            },
    {
        match self.get_node_ref(metadata) {
            Some(status) => Some(share(status.as_node())),
            None => None,
        }
    }

    /// Runs the admission checks on `node` without changing anything, and
    /// returns the slot index it would take.
    pub fn check_admission(&self, node: &CertifiedNode) -> (r: Result<usize, DagError>)
        requires
            self.wf(),
        ensures
            match r {
                Ok(i) => admission_verdict(self.rows(), self.authors(), *node) == Ok::<
                    int,
                    DagError,
                >(i as int),
                Err(e) => admission_verdict(self.rows(), self.authors(), *node) == Err::<
                    int,
                    DagError,
                >(e),
            },
    {
        let index = match index_of(&self.author_to_index, node.metadata().author()) {
            Some(i) => i,
            None => {
                return Err(DagError::UnknownAuthor);
            },
        };
        let round = node.metadata().round();
        if round < self.lowest_round() {
            return Err(DagError::RoundTooLow);
        }
        let highest = self.highest_round();
        if round > highest && round - highest > 1 {
            return Err(DagError::RoundTooHigh);
        }
        if !self.all_exists(node.parents().as_slice()) {
            return Err(DagError::MissingParent);
        }
        if self.node_exists(node.metadata()) {
            return Err(DagError::DuplicateNode);
        }
        Ok(index)
    }

    /// Finishes an admission whose checks have passed, given what the
    /// persistence layer answered: the node is written into its slot if it
    /// was recorded, and nothing changes if it was not.
    pub fn complete_admission(
        &mut self,
        node: Arc<CertifiedNode>,
        index: usize,
        saved: Result<(), StorageError>,
    ) -> (r: Result<(), DagError>)
        requires
            old(self).wf(),
            admission_verdict(old(self).rows(), old(self).authors(), *node) == Ok::<int, DagError>(
                index as int,
            ),
        ensures
            final(self).wf(),
            final(self).authors() == old(self).authors(),
            match saved {
                Ok(_) => r is Ok && final(self).rows() == place(
                    old(self).rows(),
                    old(self).authors().len(),
                    *node,
                    index as int,
                ),
                Err(e) => r == Err::<(), DagError>(DagError::PersistenceError(e))
                    && final(self).rows() == old(self).rows(),
            },
    {
        match saved {
            Err(e) => Err(DagError::PersistenceError(e)),
            Ok(_) => {
                let round = node.metadata().round();
                let n = self.author_to_index.len();
                proof {
                    let c = choose|c: int| is_index_of(self.authors(), node.metadata.author, c);
                    assert(is_index_of(self.authors(), node.metadata.author, c));
                }
                write_slot(&mut self.nodes_by_round, n, round, index, NodeStatus::Unordered(node));
                Ok(())
            },
        }
    }

    /// Admits a certified node: checks it, records it durably, and only
    /// then writes it into its slot as `Unordered`.
    pub fn add_node(&mut self, node: CertifiedNode) -> (r: Result<(), DagError>)
        requires
            old(self).wf(),
        ensures
            final(self).wf(),
            final(self).authors() == old(self).authors(),
            match r {
                Ok(_) => admission_verdict(old(self).rows(), old(self).authors(), node) matches Ok(
                    i,
                ) && final(self).rows() == place(
                    old(self).rows(),
                    old(self).authors().len(),
                    node,
                    i,
                ),
                Err(DagError::PersistenceError(_)) => admission_verdict(
                    old(self).rows(),
                    old(self).authors(),
                    node,
                ) is Ok && final(self).rows() == old(self).rows(),
                Err(e) => admission_verdict(old(self).rows(), old(self).authors(), node) == Err::<
                    int,
                    DagError,
                >(e) && final(self).rows() == old(self).rows(),
            },
    {
        let index = match self.check_admission(&node) {
            Ok(i) => i,
            Err(e) => {
                return Err(e);
            },
        };
        let node = Arc::new(node);
        let saved = self.storage.save_certified_node(&node);
        self.complete_admission(node, index, saved)
    }

    /// Moves the node stored under `metadata` to the status `target`, which
    /// must lie strictly ahead of its current status. The node itself stays.
    pub fn update_status(&mut self, metadata: &NodeMetadata, target: StatusTag) -> (r: Result<
        (),
        DagError,
    >)
        requires
            old(self).wf(),
        ensures
            final(self).wf(),
            final(self).authors() == old(self).authors(),
            match transition_verdict(old(self).rows(), old(self).authors(), *metadata, target) {
                Ok(i) => r is Ok && final(self).rows() == retag(
                    old(self).rows(),
                    metadata.round,
                    i,
                    target,
                ),
                Err(e) => r == Err::<(), DagError>(e) && final(self).rows() == old(self).rows(),
            },
    {
        let index = match index_of(&self.author_to_index, metadata.author()) {
            Some(i) => i,
            None => {
                return Err(DagError::NotFound);
            },
        };
        let (current, node) = match self.get_node_ref(metadata) {
            Some(status) => (status.tag(), share(status.as_node())),
            None => {
                return Err(DagError::NotFound);
            },
        };
        if !current.precedes(target) {
            return Err(DagError::InvalidTransition);
        }
        let n = self.author_to_index.len();
        proof {
            let c = choose|c: int| is_index_of(self.authors(), metadata.author, c);
            assert(is_index_of(self.authors(), metadata.author, c));
        }
        write_slot(
            &mut self.nodes_by_round,
            n,
            metadata.round(),
            index,
            NodeStatus::with_tag(target, node),
        );
        Ok(())
    }

    /// The authors of the nodes stored at `round`, in slot order, where the
    /// round is indexed.
    pub fn authors_in_round(&self, round: Round) -> (r: Option<Vec<Author>>)
        ensures
            match r {
                Some(a) => self.rows().contains_key(round) && a@ == present_authors(
                    self.rows()[round],
                ),
                None => !self.rows().contains_key(round),
            },
    {
        match self.nodes_by_round.get(&round) {
            None => None,
            Some(row) => {
                let ghost slots = row_view(row@);
                let mut authors: Vec<Author> = Vec::new();
                let mut i: usize = 0;
                while i < row.len()
                    invariant
                        i <= row.len(),
                        slots == row_view(row@),
                        authors@ == present_authors(slots.take(i as int)),
                    decreases row.len() - i,
                {
                    assert(slots.take(i + 1).drop_last() =~= slots.take(i as int));
                    match &row[i] {
                        Some(status) => {
                            authors.push(*status.as_node().metadata().author());
                        },
                        None => {},
                    }
                    i += 1;
                }
                assert(slots.take(row.len() as int) =~= slots);
                Some(authors)
            },
        }
    }

    /// The certificates of the nodes stored at `round`, in slot order, where
    /// the round is indexed.
    pub fn certificates_in_round(&self, round: Round) -> (r: Option<Vec<NodeCertificate>>)
        ensures
            match r {
                Some(c) => self.rows().contains_key(round) && cert_views(c@)
                    == present_certificates(self.rows()[round]),
                None => !self.rows().contains_key(round),
            },
    {
        match self.nodes_by_round.get(&round) {
            None => None,
            Some(row) => {
                let ghost slots = row_view(row@);
                let mut certs: Vec<NodeCertificate> = Vec::new();
                let mut i: usize = 0;
                assert(cert_views(certs@) =~= present_certificates(slots.take(0)));
                while i < row.len()
                    invariant
                        i <= row.len(),
                        slots == row_view(row@),
                        cert_views(certs@) == present_certificates(slots.take(i as int)),
                    decreases row.len() - i,
                {
                    assert(slots.take(i + 1).drop_last() =~= slots.take(i as int));
                    let ghost before = certs@;
                    match &row[i] {
                        Some(status) => {
                            let c = status.as_node().certificate();
                            certs.push(c);
                            assert(cert_views(certs@) =~= cert_views(before).push(c@));
                        },
                        None => {},
                    }
                    i += 1;
                }
                assert(slots.take(row.len() as int) =~= slots);
                Some(certs)
            },
        }
    }

    /// The strong links of `round`, given whether the authors of its nodes
    /// were found to form a quorum: the certificates of all its nodes if they
    /// were, nothing if they were not or the round is not indexed.
    pub fn strong_links_given(&self, round: Round, quorum_met: bool) -> (r: Option<
        Vec<NodeCertificate>,
    >)
        ensures
            match strong_links(self.rows(), round, quorum_met) {
                Some(c) => r matches Some(v) && cert_views(v@) == c,
                None => r is None,
            },
    {
        if !quorum_met {
            return None;
        }
        self.certificates_in_round(round)
    }

    /// The strong links of `round`: the certificates of all its nodes where
    /// their authors carry a quorum of the voting power, nothing otherwise.
    pub fn get_strong_links_for_round(
        &self,
        round: Round,
        validator_verifier: &ValidatorVerifier,
    ) -> (r: Option<Vec<NodeCertificate>>)
        ensures
            match strong_links(
                self.rows(),
                round,
                quorum_at(
                    self.rows(),
                    round,
                    validator_verifier.validators@,
                    validator_verifier.quorum_voting_power as int,
                ),
            ) {
                Some(c) => r matches Some(v) && cert_views(v@) == c,
                None => r is None,
            },
    {
        let authors = match self.authors_in_round(round) {
            Some(a) => a,
            None => {
                return None;
            },
        };
        let quorum_met = validator_verifier.check_voting_power(&authors).is_ok();
        self.strong_links_given(round, quorum_met)
    }

    /// Which slots are occupied, round by round from the lowest indexed
    /// round to the highest.
    pub fn bitmask(&self) -> (r: Vec<Vec<bool>>)
        requires
            self.wf(),
        ensures
            r@.len() == bitmask_of(self.rows(), self.authors().len()).len(),
            forall|k: int|
                0 <= k < r@.len() ==> (#[trigger] r@[k])@ == bitmask_of(
                    self.rows(),
                    self.authors().len(),
                )[k],
    {
        let mut mask: Vec<Vec<bool>> = Vec::new();
        let lowest = match first_round(&self.nodes_by_round) {
            Some(k) => k,
            None => {
                return mask;
            },
        };
        let highest = match last_round(&self.nodes_by_round) {
            Some(k) => k,
            None => {
                return mask;
            },
        };
        proof {
            lemma_lowest_is(self.rows(), lowest);
            lemma_highest_is(self.rows(), highest);
        }
        let ghost rows = self.rows();
        let ghost n = self.authors().len();
        let width = self.author_to_index.len();
        let mut round: Round = lowest;
        loop
            invariant_except_break
                mask@.len() == round - lowest,
            invariant
                self.wf(),
                rows == self.rows(),
                n == self.authors().len(),
                width == n,
                rows.contains_key(lowest),
                lowest == lowest_of(rows),
                highest == highest_of(rows),
                lowest <= round <= highest,
                forall|k: int|
                    0 <= k < mask@.len() ==> (#[trigger] mask@[k])@ == occupancy(
                        row_or_empty(rows, (lowest + k) as u64, n),
                    ),
            ensures
                mask@.len() == highest - lowest + 1,
                forall|k: int|
                    0 <= k < mask@.len() ==> (#[trigger] mask@[k])@ == occupancy(
                        row_or_empty(rows, (lowest + k) as u64, n),
                    ),
            decreases highest - round,
        {
            let mut bits: Vec<bool> = Vec::new();
            let mut i: usize = 0;
            match self.nodes_by_round.get(&round) {
                Some(row) => {
                    assert(rows[round].len() == row@.len());
                    while i < width
                        invariant
                            i <= width,
                            width == row@.len(),
                            bits@.len() == i,
                            forall|j: int| 0 <= j < i ==> bits@[j] == (row@[j] is Some),
                        decreases width - i,
                    {
                        bits.push(row[i].is_some());
                        i += 1;
                    }
                },
                None => {
                    while i < width
                        invariant
                            i <= width,
                            bits@.len() == i,
                            forall|j: int| 0 <= j < i ==> !bits@[j],
                        decreases width - i,
                    {
                        bits.push(false);
                        i += 1;
                    }
                },
            }
            assert(bits@ =~= occupancy(row_or_empty(rows, round, n)));
            mask.push(bits);
            if round == highest {
                break ;
            }
            round += 1;
        }
        mask
    }

    /// Builds the store of an epoch from the nodes that the persistence
    /// layer handed out. Nodes of the epoch are loaded as `Unordered` in the
    /// order of the list; the identifiers of all others are returned for
    /// deletion. Nothing is built where a node of the epoch has an author
    /// that is no validator.
    pub fn from_nodes(
        epoch_state: Arc<EpochState>,
        storage: Arc<S>,
        stored: Vec<(Digest, CertifiedNode)>,
    ) -> (r: Option<(Dag<S>, Vec<Digest>)>)
        ensures
            match r {
                Some((dag, expired)) => {
                    &&& authors_known(epoch_state.epoch, dag.authors(), stored@)
                    &&& dag.wf()
                    &&& dag.authors() == addresses_of(epoch_state.verifier.validators@)
                    &&& dag.rows() == loaded_rows(epoch_state.epoch, dag.authors(), stored@)
                    &&& expired@ == expired_digests(epoch_state.epoch, stored@)
                },
                None => !authors_known(
                    epoch_state.epoch,
                    addresses_of(epoch_state.verifier.validators@),
                    stored@,
                ),
            },
    {
        let epoch = epoch_state.epoch;
        let author_to_index = epoch_state.verifier.address_to_validator_index();
        let n = author_to_index.len();
        let ghost all = stored@;
        let mut queue = stored;
        let mut pending: Vec<(Digest, CertifiedNode)> = Vec::new();
        while queue.len() > 0
            invariant
                queue@.len() + pending@.len() == all.len(),
                forall|j: int| 0 <= j < queue@.len() ==> queue@[j] == all[j],
                forall|j: int| 0 <= j < pending@.len() ==> pending@[j] == all[all.len() - 1 - j],
            decreases queue@.len(),
        {
            match queue.pop() {
                Some(item) => {
                    pending.push(item);
                },
                None => {},
            }
        }
        let mut nodes_by_round: BTreeMap<Round, Vec<Option<NodeStatus>>> = BTreeMap::new();
        let mut expired: Vec<Digest> = Vec::new();
        let ghost authors = author_to_index@;
        assert(index_view(nodes_by_round@) =~= loaded_rows(epoch, authors, all.take(0)));
        while pending.len() > 0
            invariant
                n == authors.len(),
                authors == author_to_index@,
                authors == addresses_of(epoch_state.verifier.validators@),
                epoch == epoch_state.epoch,
                all == stored@,
                pending@.len() <= all.len(),
                forall|j: int| 0 <= j < pending@.len() ==> pending@[j] == all[all.len() - 1 - j],
                rows_wf(index_view(nodes_by_round@), n as nat),
                index_view(nodes_by_round@) == loaded_rows(
                    epoch,
                    authors,
                    all.take(all.len() - pending@.len()),
                ),
                expired@ == expired_digests(epoch, all.take(all.len() - pending@.len())),
                authors_known(epoch, authors, all.take(all.len() - pending@.len())),
            decreases pending@.len(),
        {
            let ghost done = all.len() - pending@.len();
            assert(all.take(done + 1).drop_last() =~= all.take(done));
            assert(all.take(done + 1).last() == all[done]);
            match pending.pop() {
                Some((digest, node)) => {
                    if node.metadata().epoch() == epoch {
                        match index_of(&author_to_index, node.metadata().author()) {
                            Some(index) => {
                                proof {
                                    let c = choose|c: int|
                                        is_index_of(authors, node.metadata.author, c);
                                    assert(is_index_of(authors, node.metadata.author, c));
                                }
                                let round = node.metadata().round();
                                write_slot(
                                    &mut nodes_by_round,
                                    n,
                                    round,
                                    index,
                                    NodeStatus::Unordered(Arc::new(node)),
                                );
                            },
                            None => {
                                assert(all[done].1.metadata.epoch == epoch);
                                return None;
                            },
                        }
                    } else {
                        expired.push(digest);
                    }
                    assert forall|k: int|
                        0 <= k < done + 1 && (#[trigger] all.take(done + 1)[k]).1.metadata.epoch
                            == epoch implies crate::validators::author_index(
                        authors,
                        all.take(done + 1)[k].1.metadata.author,
                    ) is Some by {
                        if k < done {
                            assert(all.take(done)[k] == all.take(done + 1)[k]);
                        }
                    }
                },
                None => {},
            }
        }
        assert(all.take(all.len() as int) =~= all);
        Some((Dag { nodes_by_round, author_to_index, storage }, expired))
    }

    /// Builds the store of an epoch from what the persistence layer holds,
    /// and has the nodes of other epochs deleted from it. A persistence
    /// layer that cannot be read counts as empty, and a failed deletion is
    /// passed over. Nothing is built where a stored node of the epoch has an
    /// author that is no validator.
    pub fn new(epoch_state: Arc<EpochState>, storage: Arc<S>) -> (r: Option<Dag<S>>)
        ensures
            match r {
                Some(dag) => {
                    &&& dag.wf()
                    &&& dag.authors() == addresses_of(epoch_state.verifier.validators@)
                    &&& exists|stored: Seq<(Digest, CertifiedNode)>|
                        authors_known(epoch_state.epoch, dag.authors(), stored) && dag.rows()
                            == #[trigger] loaded_rows(epoch_state.epoch, dag.authors(), stored)
                },
                None => exists|stored: Seq<(Digest, CertifiedNode)>|
                    !#[trigger] authors_known(
                        epoch_state.epoch,
                        addresses_of(epoch_state.verifier.validators@),
                        stored,
                    ),
            },
    {
        let stored = match storage.get_certified_nodes() {
            Ok(nodes) => nodes,
            Err(_) => Vec::new(),
        };
        let ghost listed = stored@;
        let ghost epoch = epoch_state.epoch;
        let ghost known = addresses_of(epoch_state.verifier.validators@);
        match Self::from_nodes(epoch_state, storage, stored) {
            Some((dag, expired)) => {
                let _ = dag.storage.delete_certified_nodes(expired);
                assert(dag.rows() == loaded_rows(epoch, dag.authors(), listed));
                Some(dag)
            },
            None => {
                assert(!authors_known(epoch, known, listed));
                None
            },
        }
    }
}

} // verus!
