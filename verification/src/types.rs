//! Plain data carried by the store: identities, node metadata, certificates
//! and certified nodes.

use vstd::prelude::*;

verus! {

/// Round counter within an epoch.
pub type Round = u64;

/// Length in bytes of an author identity and of a node digest.
pub const ID_LEN: usize = 32;

/// Identity of a validator. Two authors are the same validator exactly when
/// their byte sequences (their views) are equal.
#[derive(Clone, Copy, Debug, PartialEq, Eq, Hash)]
pub struct Author {
    pub bytes: [u8; 32],
}

impl View for Author {
    type V = Seq<u8>;

    open spec fn view(&self) -> Seq<u8> {
        self.bytes@
    }
}

impl Author {
    pub fn new(bytes: [u8; 32]) -> (a: Author)
        ensures
            a@ == bytes@,
    {
        Author { bytes }
    }

    /// Byte-wise comparison of two identities.
    pub fn same(&self, other: &Author) -> (r: bool)
        ensures
            r == (self@ == other@),
    {
        let mut i: usize = 0;
        while i < ID_LEN
            invariant
                i <= ID_LEN,
                forall|k: int| 0 <= k < i ==> self.bytes@[k] == other.bytes@[k],
            decreases ID_LEN - i,
        {
            if self.bytes[i] != other.bytes[i] {
                return false;
            }
            i += 1;
        }
        assert(self.bytes@ =~= other.bytes@);
        true
    }
}

/// Identifier under which the persistence layer keeps a certified node.
#[derive(Clone, Copy, Debug, PartialEq, Eq, Hash)]
pub struct Digest {
    pub bytes: [u8; 32],
}

/// Key of a node: the epoch it belongs to, its round and its author.
#[derive(Clone, Copy, Debug, PartialEq, Eq)]
pub struct NodeMetadata {
    pub epoch: u64,
    pub round: Round,
    pub author: Author,
}

impl NodeMetadata {
    pub fn new(epoch: u64, round: Round, author: Author) -> (m: NodeMetadata)
        ensures
            m == (NodeMetadata { epoch, round, author }),
    {
        NodeMetadata { epoch, round, author }
    }

    pub fn epoch(&self) -> (e: u64)
        ensures
            e == self.epoch,
    {
        self.epoch
    }

    pub fn round(&self) -> (r: Round)
        ensures
            r == self.round,
    {
        self.round
    }

    pub fn author(&self) -> (a: &Author)
        ensures
            *a == self.author,
    {
        &self.author
    }
}

/// Copies a byte vector element by element.
pub fn copy_bytes(src: &Vec<u8>) -> (dst: Vec<u8>)
    ensures
        dst@ == src@,
{
    let mut dst: Vec<u8> = Vec::new();
    let mut i: usize = 0;
    while i < src.len()
        invariant
            i <= src.len(),
            dst@ == src@.take(i as int),
        decreases src.len() - i,
    {
        dst.push(src[i]);
        assert(src@.take(i + 1) =~= src@.take(i as int).push(src@[i as int]));
        i += 1;
    }
    assert(src@.take(src.len() as int) =~= src@);
    dst
}

/// A node's metadata together with the aggregated endorsement that certifies
/// it. The endorsement is carried as opaque bytes.
#[derive(Debug, Clone, PartialEq, Eq)]
pub struct NodeCertificate {
    pub metadata: NodeMetadata,
    pub signatures: Vec<u8>,
}

impl View for NodeCertificate {
    type V = (NodeMetadata, Seq<u8>);

    open spec fn view(&self) -> (NodeMetadata, Seq<u8>) {
        (self.metadata, self.signatures@)
    }
}

impl NodeCertificate {
    pub fn new(metadata: NodeMetadata, signatures: Vec<u8>) -> (c: NodeCertificate)
        ensures
            c@ == (metadata, signatures@),
    {
        NodeCertificate { metadata, signatures }
    }

    pub fn metadata(&self) -> (m: &NodeMetadata)
        ensures
            *m == self.metadata,
    {
        &self.metadata
    }

    pub fn signatures(&self) -> (s: &Vec<u8>)
        ensures
            s@ == self.signatures@,
    {
        &self.signatures
    }
}

/// A certified proposal: its metadata, the certificates of its parents in the
/// order they were declared, and the endorsement of the node itself.
#[derive(Debug, Clone, PartialEq, Eq)]
pub struct CertifiedNode {
    pub metadata: NodeMetadata,
    pub parents: Vec<NodeCertificate>,
    pub signatures: Vec<u8>,
}

impl CertifiedNode {
    pub fn new(metadata: NodeMetadata, parents: Vec<NodeCertificate>, signatures: Vec<u8>) -> (n:
        CertifiedNode)
        ensures
            n == (CertifiedNode { metadata, parents, signatures }),
    {
        CertifiedNode { metadata, parents, signatures }
    }

    pub fn metadata(&self) -> (m: &NodeMetadata)
        ensures
            *m == self.metadata,
    {
        &self.metadata
    }

    pub fn parents(&self) -> (p: &Vec<NodeCertificate>)
        ensures
            *p == self.parents,
    {
        &self.parents
    }

    /// The node's own certificate: its metadata with its endorsement.
    pub open spec fn spec_certificate(&self) -> (NodeMetadata, Seq<u8>) {
        (self.metadata, self.signatures@)
    }

    /// Builds the node's own certificate.
    pub fn certificate(&self) -> (c: NodeCertificate)
        ensures
            c@ == self.spec_certificate(),
    {
        NodeCertificate::new(self.metadata, copy_bytes(&self.signatures))
    }
}

} // verus!
