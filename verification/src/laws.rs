//! Laws of the store, proved over its model.

use crate::model::{
    admission_verdict, all_present, highest_of, loaded_rows, lowest_of, place, present,
    present_authors, quorum_at, retag, rows_wf, slot_at, transition_verdict, DagError, Rows, Slot,
};
use crate::status::StatusTag;
use crate::types::{Author, CertifiedNode, Digest, NodeMetadata};
use crate::validators::{
    addresses_of, author_index, is_index_of, lemma_index_unique, power_of, total_power,
    ValidatorInfo,
};
use vstd::prelude::*;

verus! {

/// The index of an author depends on its bytes alone.
pub proof fn lemma_index_by_bytes(authors: Seq<Author>, a: Author, b: Author)
    requires
        a@ == b@,
    ensures
        author_index(authors, a) == author_index(authors, b),
{
    if author_index(authors, a) is Some {
        let i = choose|i: int| is_index_of(authors, a, i);
        assert(is_index_of(authors, b, i));
        lemma_index_unique(authors, b, i);
    } else if author_index(authors, b) is Some {
        let i = choose|i: int| is_index_of(authors, b, i);
        assert(is_index_of(authors, a, i));
        lemma_index_unique(authors, a, i);
    }
}

/// An admitted node is found under its metadata, as `Unordered`.
pub proof fn lemma_admitted_node_is_present(
    rows: Rows,
    authors: Seq<Author>,
    node: CertifiedNode,
    i: int,
)
    requires
        rows_wf(rows, authors.len()),
        admission_verdict(rows, authors, node) == Ok::<int, DagError>(i),
    ensures
        slot_at(place(rows, authors.len(), node, i), authors, node.metadata) == Some(
            (StatusTag::Unordered, node),
        ),
        rows_wf(place(rows, authors.len(), node, i), authors.len()),
{
    let c = choose|c: int| is_index_of(authors, node.metadata.author, c);
    assert(is_index_of(authors, node.metadata.author, c));
}

/// No two nodes share a round and an author: once a node is admitted, no
/// node of the same round and author is admitted again, and every slot but
/// the one it took holds what it held before.
pub proof fn lemma_no_duplicates(
    rows: Rows,
    authors: Seq<Author>,
    node: CertifiedNode,
    i: int,
    other: CertifiedNode,
)
    requires
        rows_wf(rows, authors.len()),
        admission_verdict(rows, authors, node) == Ok::<int, DagError>(i),
        other.metadata.round == node.metadata.round,
        other.metadata.author@ == node.metadata.author@,
    ensures
        admission_verdict(place(rows, authors.len(), node, i), authors, other) is Err,
        forall|m: NodeMetadata|
            m.round != node.metadata.round || author_index(authors, m.author) != Some(i)
                ==> #[trigger] slot_at(place(rows, authors.len(), node, i), authors, m) == slot_at(
                rows,
                authors,
                m,
            ),
{
    lemma_admitted_node_is_present(rows, authors, node, i);
    lemma_index_by_bytes(authors, other.metadata.author, node.metadata.author);
    let after = place(rows, authors.len(), node, i);
    assert(slot_at(after, authors, other.metadata) == slot_at(after, authors, node.metadata));
    assert forall|m: NodeMetadata|
        m.round != node.metadata.round || author_index(authors, m.author) != Some(
            i,
        ) implies #[trigger] slot_at(after, authors, m) == slot_at(rows, authors, m) by {
        if author_index(authors, m.author) is Some {
            let c = choose|c: int| is_index_of(authors, m.author, c);
            assert(is_index_of(authors, m.author, c));
        }
    }
}

/// A node whose round lies below the lowest indexed round, or more than one
/// above the highest, is never admitted.
pub proof fn lemma_round_out_of_bounds_rejected(
    rows: Rows,
    authors: Seq<Author>,
    node: CertifiedNode,
)
    requires
        node.metadata.round < lowest_of(rows) || node.metadata.round > highest_of(rows) + 1,
    ensures
        admission_verdict(rows, authors, node) matches Err(e) && (e == DagError::UnknownAuthor
            || e == DagError::RoundTooLow || e == DagError::RoundTooHigh),
{
}

/// A node with a parent that is not stored is never admitted.
pub proof fn lemma_missing_parent_rejected(
    rows: Rows,
    authors: Seq<Author>,
    node: CertifiedNode,
    k: int,
)
    requires
        0 <= k < node.parents@.len(),
        !present(rows, authors, node.parents@[k].metadata),
    ensures
        admission_verdict(rows, authors, node) matches Err(e) && (e == DagError::UnknownAuthor
            || e == DagError::RoundTooLow || e == DagError::RoundTooHigh || e
            == DagError::MissingParent),
{
}

/// A node whose parents are all stored is admitted, where its author is a
/// validator, its round is in bounds and its slot is free.
pub proof fn lemma_parents_present_admitted(rows: Rows, authors: Seq<Author>, node: CertifiedNode)
    requires
        author_index(authors, node.metadata.author) is Some,
        lowest_of(rows) <= node.metadata.round <= highest_of(rows) + 1,
        all_present(rows, authors, node.parents@),
        !present(rows, authors, node.metadata),
    ensures
        admission_verdict(rows, authors, node) == Ok::<int, DagError>(
            author_index(authors, node.metadata.author).unwrap(),
        ),
{
}

/// Filling an empty slot of a row adds the weight of the new author to the
/// summed weight of the row's authors.
pub proof fn lemma_total_after_fill(validators: Seq<ValidatorInfo>, row: Seq<Slot>, i: int, s: (
    StatusTag,
    CertifiedNode,
))
    requires
        0 <= i < row.len(),
        row[i] is None,
        power_of(validators, s.1.metadata.author) is Some,
        total_power(validators, present_authors(row)) is Some,
    ensures
        total_power(validators, present_authors(row.update(i, Some(s)))) == Some(
            total_power(validators, present_authors(row)).unwrap() + power_of(
                validators,
                s.1.metadata.author,
            ).unwrap(),
        ),
    decreases row.len(),
{
    let filled = row.update(i, Some(s));
    let rest = present_authors(row.drop_last());
    if i == row.len() - 1 {
        assert(filled.drop_last() =~= row.drop_last());
        assert(present_authors(filled) == rest.push(s.1.metadata.author));
        assert(rest.push(s.1.metadata.author).drop_last() =~= rest);
    } else {
        assert(filled.drop_last() =~= row.drop_last().update(i, Some(s)));
        assert(filled.last() == row.last());
        match row.last() {
            Some(t) => {
                let a = t.1.metadata.author;
                assert(rest.push(a).drop_last() =~= rest);
                lemma_total_after_fill(validators, row.drop_last(), i, s);
                let filled_rest = present_authors(filled.drop_last());
                assert(filled_rest.push(a).drop_last() =~= filled_rest);
            },
            None => {
                lemma_total_after_fill(validators, row.drop_last(), i, s);
            },
        }
    }
}

/// Admitting a node never takes a quorum away: a round whose authors form a
/// quorum before the admission has one after it.
pub proof fn lemma_quorum_survives_admission(
    rows: Rows,
    validators: Seq<ValidatorInfo>,
    quorum: int,
    node: CertifiedNode,
    i: int,
    round: u64,
)
    requires
        rows_wf(rows, validators.len()),
        admission_verdict(rows, addresses_of(validators), node) == Ok::<int, DagError>(i),
        quorum_at(rows, round, validators, quorum),
    ensures
        quorum_at(place(rows, validators.len(), node, i), round, validators, quorum),
{
    let authors = addresses_of(validators);
    if round == node.metadata.round {
        let c = choose|c: int| is_index_of(authors, node.metadata.author, c);
        assert(is_index_of(authors, node.metadata.author, c));
        lemma_total_after_fill(validators, rows[round], i, (StatusTag::Unordered, node));
    }
}

/// A status never moves backward or stays: a change to a status that is not
/// strictly ahead of the current one is refused.
pub proof fn lemma_backward_transition_rejected(
    rows: Rows,
    authors: Seq<Author>,
    m: NodeMetadata,
    target: StatusTag,
)
    requires
        slot_at(rows, authors, m) matches Some(s) && target.rank() <= s.0.rank(),
    ensures
        transition_verdict(rows, authors, m, target) == Err::<int, DagError>(
            DagError::InvalidTransition,
        ),
{
}

/// An accepted status change moves the tag strictly forward and keeps the
/// node.
pub proof fn lemma_transition_moves_forward(
    rows: Rows,
    authors: Seq<Author>,
    m: NodeMetadata,
    target: StatusTag,
    i: int,
)
    requires
        transition_verdict(rows, authors, m, target) == Ok::<int, DagError>(i),
    ensures
        slot_at(rows, authors, m) matches Some(s) && s.0.rank() < target.rank() && slot_at(
            retag(rows, m.round, i, target),
            authors,
            m,
        ) == Some((target, s.1)),
{
}

/// The nodes of the epoch among the stored ones, in the order of the list.
pub open spec fn current_nodes(epoch: u64, stored: Seq<(Digest, CertifiedNode)>) -> Seq<
    CertifiedNode,
>
    decreases stored.len(),
{
    if stored.len() == 0 {
        Seq::empty()
    } else if stored.last().1.metadata.epoch == epoch {
        current_nodes(epoch, stored.drop_last()).push(stored.last().1)
    } else {
        current_nodes(epoch, stored.drop_last())
    }
}

/// The contents after the nodes are admitted one by one, in the order of
/// the list, into an empty store; `None` if one of them is refused.
pub open spec fn admitted_in_order(authors: Seq<Author>, nodes: Seq<CertifiedNode>) -> Option<Rows>
    decreases nodes.len(),
{
    if nodes.len() == 0 {
        Some(Map::empty())
    } else {
        match admitted_in_order(authors, nodes.drop_last()) {
            Some(rows) => match admission_verdict(rows, authors, nodes.last()) {
                Ok(i) => Some(place(rows, authors.len(), nodes.last(), i)),
                Err(_) => None,
            },
            None => None,
        }
    }
}

/// Loading a stored set gives the contents that admitting its nodes of the
/// epoch one by one gives, where each of them is admitted.
pub proof fn lemma_rehydration_matches_admission(
    epoch: u64,
    authors: Seq<Author>,
    stored: Seq<(Digest, CertifiedNode)>,
)
    requires
        admitted_in_order(authors, current_nodes(epoch, stored)) is Some,
    ensures
        loaded_rows(epoch, authors, stored) == admitted_in_order(
            authors,
            current_nodes(epoch, stored),
        ).unwrap(),
    decreases stored.len(),
{
    if stored.len() > 0 {
        let before = current_nodes(epoch, stored.drop_last());
        if stored.last().1.metadata.epoch == epoch {
            assert(before.push(stored.last().1).drop_last() =~= before);
        }
        lemma_rehydration_matches_admission(epoch, authors, stored.drop_last());
    }
}

} // verus!
