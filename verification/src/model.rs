//! The mathematical model of the store: rows of slots keyed by round, and
//! the rules of admission and of the status lifecycle stated over them.

use crate::status::StatusTag;
use crate::types::{Author, CertifiedNode, Digest, NodeCertificate, NodeMetadata};
use crate::validators::{author_index, meets_quorum, ValidatorInfo};
use vstd::prelude::*;

verus! {

/// What a slot holds: nothing, or a node under its tag.
pub type Slot = Option<(StatusTag, CertifiedNode)>;

/// The store's contents: for each indexed round, one slot per validator.
pub type Rows = Map<u64, Seq<Slot>>;

/// Errors of the store's operations.
#[derive(Debug, Clone, PartialEq, Eq)]
pub enum DagError {
    /// The node's author is no validator of the epoch.
    UnknownAuthor,
    /// The node's round lies below the lowest indexed round.
    RoundTooLow,
    /// The node's round would leave a gap above the highest indexed round.
    RoundTooHigh,
    /// A declared parent is not in the store.
    MissingParent,
    /// The slot of the node's round and author is taken.
    DuplicateNode,
    /// The persistence layer refused to record the node.
    PersistenceError(crate::storage::StorageError),
    /// No node is stored under the given metadata.
    NotFound,
    /// The requested status is not strictly ahead of the current one.
    InvalidTransition,
}

pub open spec fn is_lowest(rows: Rows, r: u64) -> bool {
    rows.contains_key(r) && forall|k: u64| rows.contains_key(k) ==> r <= k
}

pub open spec fn is_highest(rows: Rows, r: u64) -> bool {
    rows.contains_key(r) && forall|k: u64| rows.contains_key(k) ==> k <= r
}

/// The least indexed round, or 0 where no round is indexed.
pub open spec fn lowest_of(rows: Rows) -> u64 {
    if exists|r: u64| is_lowest(rows, r) {
        choose|r: u64| is_lowest(rows, r)
    } else {
        0
    }
}

/// The greatest indexed round, or 0 where no round is indexed.
pub open spec fn highest_of(rows: Rows) -> u64 {
    if exists|r: u64| is_highest(rows, r) {
        choose|r: u64| is_highest(rows, r)
    } else {
        0
    }
}

pub proof fn lemma_lowest_is(rows: Rows, r: u64)
    requires
        is_lowest(rows, r),
    ensures
        lowest_of(rows) == r,
{
    let c = choose|c: u64| is_lowest(rows, c);
    assert(is_lowest(rows, c));
}

pub proof fn lemma_highest_is(rows: Rows, r: u64)
    requires
        is_highest(rows, r),
    ensures
        highest_of(rows) == r,
{
    let c = choose|c: u64| is_highest(rows, c);
    assert(is_highest(rows, c));
}

pub proof fn lemma_bounds_of_empty(rows: Rows)
    requires
        forall|k: u64| !rows.contains_key(k),
    ensures
        lowest_of(rows) == 0,
        highest_of(rows) == 0,
{
}

/// Every row is as wide as the validator set.
pub open spec fn rows_wf(rows: Rows, n: nat) -> bool {
    forall|r: u64| rows.contains_key(r) ==> (#[trigger] rows[r]).len() == n
}

/// The slot of the round and author that `m` names; empty where the author
/// has no index or the round is not indexed.
pub open spec fn slot_at(rows: Rows, authors: Seq<Author>, m: NodeMetadata) -> Slot {
    match author_index(authors, m.author) {
        Some(i) => if rows.contains_key(m.round) && i < rows[m.round].len() {
            rows[m.round][i]
        } else {
            None
        },
        None => None,
    }
}

/// Whether a node is stored under `m`.
pub open spec fn present(rows: Rows, authors: Seq<Author>, m: NodeMetadata) -> bool {
    slot_at(rows, authors, m) is Some
}

/// Whether a node is stored under the metadata of every certificate.
pub open spec fn all_present(rows: Rows, authors: Seq<Author>, certs: Seq<NodeCertificate>) -> bool {
    forall|k: int| 0 <= k < certs.len() ==> present(rows, authors, (#[trigger] certs[k]).metadata)
}

pub open spec fn empty_row(n: nat) -> Seq<Slot> {
    Seq::new(n, |i: int| None)
}

pub open spec fn row_or_empty(rows: Rows, round: u64, n: nat) -> Seq<Slot> {
    if rows.contains_key(round) {
        rows[round]
    } else {
        empty_row(n)
    }
}

/// The contents after `node` is written as `Unordered` into slot `i` of its
/// round, the row being created empty, `n` slots wide, where the round was
/// not indexed.
pub open spec fn place(rows: Rows, n: nat, node: CertifiedNode, i: int) -> Rows {
    rows.insert(
        node.metadata.round,
        row_or_empty(rows, node.metadata.round, n).update(i, Some((StatusTag::Unordered, node))),
    )
}

/// The outcome of the admission checks, in the order they are made: the
/// slot index the node would take, or the first check that fails.
pub open spec fn admission_verdict(rows: Rows, authors: Seq<Author>, node: CertifiedNode) -> Result<
    int,
    DagError,
> {
    match author_index(authors, node.metadata.author) {
        None => Err(DagError::UnknownAuthor),
        Some(i) => if node.metadata.round < lowest_of(rows) {
            Err(DagError::RoundTooLow)
        } else if node.metadata.round > highest_of(rows) + 1 {
            Err(DagError::RoundTooHigh)
        } else if !all_present(rows, authors, node.parents@) {
            Err(DagError::MissingParent)
        } else if present(rows, authors, node.metadata) {
            Err(DagError::DuplicateNode)
        } else {
            Ok(i)
        },
    }
}

/// The outcome of a status change: the slot index of the node to re-tag, or
/// the reason for refusing.
pub open spec fn transition_verdict(
    rows: Rows,
    authors: Seq<Author>,
    m: NodeMetadata,
    target: StatusTag,
) -> Result<int, DagError> {
    match slot_at(rows, authors, m) {
        None => Err(DagError::NotFound),
        Some(s) => if s.0.rank() < target.rank() {
            Ok(author_index(authors, m.author).unwrap())
        } else {
            Err(DagError::InvalidTransition)
        },
    }
}

/// The contents after the node in slot `i` of `round` is given the tag
/// `target`; the node itself is kept.
pub open spec fn retag(rows: Rows, round: u64, i: int, target: StatusTag) -> Rows {
    rows.insert(round, rows[round].update(i, Some((target, rows[round][i].unwrap().1))))
}

/// The authors of the occupied slots of a row, in slot order.
pub open spec fn present_authors(row: Seq<Slot>) -> Seq<Author>
    decreases row.len(),
{
    if row.len() == 0 {
        Seq::empty()
    } else {
        match row.last() {
            Some(s) => present_authors(row.drop_last()).push(s.1.metadata.author),
            None => present_authors(row.drop_last()),
        }
    }
}

/// The certificates of the nodes in the occupied slots of a row, in slot
/// order.
pub open spec fn present_certificates(row: Seq<Slot>) -> Seq<(NodeMetadata, Seq<u8>)>
    decreases row.len(),
{
    if row.len() == 0 {
        Seq::empty()
    } else {
        match row.last() {
            Some(s) => present_certificates(row.drop_last()).push(s.1.spec_certificate()),
            None => present_certificates(row.drop_last()),
        }
    }
}

/// The certificates as plain values.
pub open spec fn cert_views(certs: Seq<NodeCertificate>) -> Seq<(NodeMetadata, Seq<u8>)> {
    Seq::new(certs.len(), |i: int| certs[i]@)
}

/// The strong links of a round: the certificates of its nodes where the
/// round is indexed and its authors were found to form a quorum.
pub open spec fn strong_links(rows: Rows, round: u64, quorum_met: bool) -> Option<
    Seq<(NodeMetadata, Seq<u8>)>,
> {
    if rows.contains_key(round) && quorum_met {
        Some(present_certificates(rows[round]))
    } else {
        None
    }
}

/// Whether `round` is indexed and the authors of its nodes form a quorum of
/// the given validator set.
pub open spec fn quorum_at(rows: Rows, round: u64, validators: Seq<ValidatorInfo>, quorum: int) -> bool {
    rows.contains_key(round) && meets_quorum(validators, quorum, present_authors(rows[round]))
}

/// The contents after one stored node is loaded: a node of the epoch is
/// written into its slot as `Unordered`, any other is left out.
pub open spec fn load_one(rows: Rows, epoch: u64, authors: Seq<Author>, node: CertifiedNode) -> Rows {
    if node.metadata.epoch == epoch {
        match author_index(authors, node.metadata.author) {
            Some(i) => place(rows, authors.len(), node, i),
            None => rows,
        }
    } else {
        rows
    }
}

/// The contents after the stored nodes are loaded one by one, in the order
/// of the list, into an empty store.
pub open spec fn loaded_rows(epoch: u64, authors: Seq<Author>, stored: Seq<(Digest, CertifiedNode)>) -> Rows
    decreases stored.len(),
{
    if stored.len() == 0 {
        Map::empty()
    } else {
        load_one(loaded_rows(epoch, authors, stored.drop_last()), epoch, authors, stored.last().1)
    }
}

/// The identifiers of the stored nodes of other epochs, in the order of the
/// list.
pub open spec fn expired_digests(epoch: u64, stored: Seq<(Digest, CertifiedNode)>) -> Seq<Digest>
    decreases stored.len(),
{
    if stored.len() == 0 {
        Seq::empty()
    } else if stored.last().1.metadata.epoch == epoch {
        expired_digests(epoch, stored.drop_last())
    } else {
        expired_digests(epoch, stored.drop_last()).push(stored.last().0)
    }
}

/// Whether the author of every stored node of the epoch is a validator.
pub open spec fn authors_known(epoch: u64, authors: Seq<Author>, stored: Seq<(Digest, CertifiedNode)>) -> bool {
    forall|k: int|
        0 <= k < stored.len() && (#[trigger] stored[k]).1.metadata.epoch == epoch ==> author_index(
            authors,
            stored[k].1.metadata.author,
        ) is Some
}

/// The occupancy of every round from the lowest indexed to the highest, in
/// round order; empty where no round is indexed. A round in between that is
/// not indexed has no slot occupied.
pub open spec fn bitmask_of(rows: Rows, n: nat) -> Seq<Seq<bool>> {
    if forall|k: u64| !rows.contains_key(k) {
        Seq::empty()
    } else {
        Seq::new(
            (highest_of(rows) - lowest_of(rows) + 1) as nat,
            |k: int| occupancy(row_or_empty(rows, (lowest_of(rows) + k) as u64, n)),
        )
    }
}

/// Which slots of a row are occupied.
pub open spec fn occupancy(row: Seq<Slot>) -> Seq<bool> {
    Seq::new(row.len(), |i: int| row[i] is Some)
}

} // verus!
