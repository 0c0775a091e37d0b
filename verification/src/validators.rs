//! The epoch's validator set: a dense index for each author and the weighted
//! quorum predicate.

use crate::types::Author;
use vstd::prelude::*;

verus! {

/// Whether `i` is the first position of `authors` that holds `a`.
pub open spec fn is_index_of(authors: Seq<Author>, a: Author, i: int) -> bool {
    &&& 0 <= i < authors.len()
    &&& authors[i]@ == a@
    &&& forall|j: int| 0 <= j < i ==> (#[trigger] authors[j])@ != a@
}

/// The dense index of `a`: the first position of `authors` that holds it.
pub open spec fn author_index(authors: Seq<Author>, a: Author) -> Option<int> {
    if exists|i: int| is_index_of(authors, a, i) {
        Some(choose|i: int| is_index_of(authors, a, i))
    } else {
        None
    }
}

/// An author has at most one index.
pub proof fn lemma_index_unique(authors: Seq<Author>, a: Author, i: int)
    requires
        is_index_of(authors, a, i),
    ensures
        author_index(authors, a) == Some(i),
{
    let c = choose|c: int| is_index_of(authors, a, c);
    assert(is_index_of(authors, a, c));
    if c < i {
        assert(authors[c]@ != a@);
    }
    if i < c {
        assert(authors[i]@ != a@);
    }
}

/// An author that occurs nowhere has no index.
pub proof fn lemma_index_absent(authors: Seq<Author>, a: Author)
    requires
        forall|j: int| 0 <= j < authors.len() ==> (#[trigger] authors[j])@ != a@,
    ensures
        author_index(authors, a) is None,
{
    if exists|i: int| is_index_of(authors, a, i) {
        let c = choose|c: int| is_index_of(authors, a, c);
        assert(authors[c]@ != a@);
    }
}

/// Looks an author up in the list that defines the dense index.
pub fn index_of(authors: &Vec<Author>, a: &Author) -> (r: Option<usize>)
    ensures
        match r {
            Some(i) => author_index(authors@, *a) == Some(i as int),
            None => author_index(authors@, *a) is None,
        },
{
    let mut i: usize = 0;
    while i < authors.len()
        invariant
            i <= authors.len(),
            forall|j: int| 0 <= j < i ==> (#[trigger] authors@[j])@ != a@,
        decreases authors.len() - i,
    {
        if authors[i].same(a) {
            proof {
                lemma_index_unique(authors@, *a, i as int);
            }
            return Some(i);
        }
        i += 1;
    }
    proof {
        lemma_index_absent(authors@, *a);
    }
    None
}

/// One validator of the epoch with its weight.
#[derive(Clone, Copy, Debug, PartialEq, Eq)]
pub struct ValidatorInfo {
    pub address: Author,
    pub voting_power: u64,
}

/// Why a set of authors does not form a quorum.
#[derive(Clone, Copy, Debug, PartialEq, Eq)]
pub enum VerifyError {
    /// Some author is not a validator of the epoch.
    UnknownAuthor,
    /// The authors are validators, but their weight is below the threshold.
    TooLittleVotingPower { voting_power: u128, expected_voting_power: u128 },
}

/// The validators of an epoch in index order, and the weight a quorum needs.
#[derive(Clone, Debug, PartialEq, Eq)]
pub struct ValidatorVerifier {
    pub validators: Vec<ValidatorInfo>,
    pub quorum_voting_power: u128,
}

/// The validators' addresses in index order.
pub open spec fn addresses_of(validators: Seq<ValidatorInfo>) -> Seq<Author> {
    Seq::new(validators.len(), |i: int| validators[i].address)
}

/// The weight of an author, if it is a validator.
pub open spec fn power_of(validators: Seq<ValidatorInfo>, a: Author) -> Option<u64> {
    match author_index(addresses_of(validators), a) {
        Some(i) => Some(validators[i].voting_power),
        None => None,
    }
}

/// The summed weight of `authors`, each counted as often as it occurs;
/// `None` if one of them is no validator.
pub open spec fn total_power(validators: Seq<ValidatorInfo>, authors: Seq<Author>) -> Option<int>
    decreases authors.len(),
{
    if authors.len() == 0 {
        Some(0)
    } else {
        match (total_power(validators, authors.drop_last()), power_of(validators, authors.last())) {
            (Some(t), Some(p)) => Some(t + p),
            _ => None,
        }
    }
}

/// The quorum predicate: all authors are validators and their summed weight
/// reaches the threshold.
pub open spec fn meets_quorum(validators: Seq<ValidatorInfo>, quorum: int, authors: Seq<Author>) -> bool {
    match total_power(validators, authors) {
        Some(t) => t >= quorum,
        None => false,
    }
}

/// The verdict on a set of authors.
pub open spec fn voting_verdict(validators: Seq<ValidatorInfo>, quorum: u128, authors: Seq<Author>) -> Result<(), VerifyError> {
    match total_power(validators, authors) {
        None => Err(VerifyError::UnknownAuthor),
        Some(t) => if t >= quorum {
            Ok(())
        } else {
            Err(
                VerifyError::TooLittleVotingPower {
                    voting_power: t as u128,
                    expected_voting_power: quorum,
                },
            )
        },
    }
}

impl ValidatorVerifier {
    pub fn new(validators: Vec<ValidatorInfo>, quorum_voting_power: u128) -> (v: ValidatorVerifier)
        ensures
            v.validators == validators,
            v.quorum_voting_power == quorum_voting_power,
    {
        ValidatorVerifier { validators, quorum_voting_power }
    }

    /// The authors in index order: position `i` holds the author whose dense
    /// index is `i`.
    pub fn address_to_validator_index(&self) -> (authors: Vec<Author>)
        ensures
            authors@ == addresses_of(self.validators@),
    {
        let mut authors: Vec<Author> = Vec::new();
        let mut i: usize = 0;
        while i < self.validators.len()
            invariant
                i <= self.validators.len(),
                authors@.len() == i,
                forall|k: int| 0 <= k < i ==> authors@[k] == self.validators@[k].address,
            decreases self.validators.len() - i,
        {
            authors.push(self.validators[i].address);
            i += 1;
        }
        assert(authors@ =~= addresses_of(self.validators@));
        authors
    }

    /// The weight of `a`, if it is a validator.
    pub fn get_voting_power(&self, a: &Author) -> (p: Option<u64>)
        ensures
            p == power_of(self.validators@, *a),
    {
        let ghost addrs = addresses_of(self.validators@);
        let mut i: usize = 0;
        while i < self.validators.len()
            invariant
                i <= self.validators.len(),
                addrs == addresses_of(self.validators@),
                forall|j: int| 0 <= j < i ==> (#[trigger] addrs[j])@ != a@,
            decreases self.validators.len() - i,
        {
            if self.validators[i].address.same(a) {
                proof {
                    lemma_index_unique(addrs, *a, i as int);
                }
                return Some(self.validators[i].voting_power);
            }
            i += 1;
        }
        proof {
            lemma_index_absent(addrs, *a);
        }
        None
    }

    /// Decides whether `authors` carry a quorum of the epoch's voting power.
    pub fn check_voting_power(&self, authors: &Vec<Author>) -> (r: Result<(), VerifyError>)
        ensures
            r == voting_verdict(self.validators@, self.quorum_voting_power, authors@),
            r is Ok <==> meets_quorum(self.validators@, self.quorum_voting_power as int, authors@),
    {
        let mut sum: u128 = 0;
        let mut i: usize = 0;
        while i < authors.len()
            invariant
                i <= authors.len(),
                total_power(self.validators@, authors@.take(i as int)) == Some(sum as int),
                sum <= i * 0xFFFF_FFFF_FFFF_FFFF,
            decreases authors.len() - i,
        {
            assert(authors@.take(i + 1).drop_last() =~= authors@.take(i as int));
            match self.get_voting_power(&authors[i]) {
                Some(p) => {
                    assert((i + 1) * 0xFFFF_FFFF_FFFF_FFFF <= 0xFFFF_FFFF_FFFF_FFFF
                        * 0xFFFF_FFFF_FFFF_FFFF) by (nonlinear_arith)
                        requires
                            i + 1 <= 0xFFFF_FFFF_FFFF_FFFF,
                    ;
                    assert((i + 1) * 0xFFFF_FFFF_FFFF_FFFF == i * 0xFFFF_FFFF_FFFF_FFFF
                        + 0xFFFF_FFFF_FFFF_FFFF) by (nonlinear_arith);
                    sum = sum + p as u128;
                },
                None => {
                    proof {
                        lemma_unknown_author_spoils(self.validators@, authors@, i as int);
                    }
                    return Err(VerifyError::UnknownAuthor);
                },
            }
            i += 1;
        }
        assert(authors@.take(authors.len() as int) =~= authors@);
        if sum < self.quorum_voting_power {
            Err(
                VerifyError::TooLittleVotingPower {
                    voting_power: sum,
                    expected_voting_power: self.quorum_voting_power,
                },
            )
        } else {
            Ok(())
        }
    }
}

/// Once a prefix of `authors` has no total, no longer prefix has one.
pub proof fn lemma_unknown_author_spoils(validators: Seq<ValidatorInfo>, authors: Seq<Author>, i: int)
    requires
        0 <= i < authors.len(),
        power_of(validators, authors[i]) is None,
    ensures
        total_power(validators, authors) is None,
    decreases authors.len(),
{
    if i == authors.len() - 1 {
    } else {
        lemma_unknown_author_spoils(validators, authors.drop_last(), i);
    }
}

/// The state of an epoch: its number and its validator set.
#[derive(Clone, Debug, PartialEq, Eq)]
pub struct EpochState {
    pub epoch: u64,
    pub verifier: ValidatorVerifier,
}

} // verus!
