use vstd::prelude::*;

verus! {

/// Identifier of a commit in the commit graph: twenty bytes, equal when the bytes are.
#[derive(Clone, Copy, Debug, Eq, PartialOrd, Ord, Hash)]
pub struct CommitHash {
    pub hash: [u8; 20],
}

impl PartialEq for CommitHash {
    fn eq(&self, o: &CommitHash) -> (r: bool) {
        let mut i: usize = 0;
        while i < 20
            invariant
                i <= 20,
                forall|j: int| 0 <= j < i ==> self.hash@[j] == o.hash@[j],
            decreases 20 - i,
        {
            if self.hash[i] != o.hash[i] {
                return false;
            }
            i = i + 1;
        }
        proof {
            assert(self.hash@ =~= o.hash@);
        }
        true
    }
}

impl vstd::std_specs::cmp::PartialEqSpecImpl for CommitHash {
    open spec fn obeys_eq_spec() -> bool {
        true
    }

    open spec fn eq_spec(&self, o: &CommitHash) -> bool {
        self.hash@ == o.hash@
    }
}

impl CommitHash {
    /// Whether two identifiers name the same commit.
    pub fn same(&self, o: &CommitHash) -> (r: bool)
        ensures
            r == (self.hash@ == o.hash@),
    {
        *self == *o
    }
}

/// A 256-bit digest.
#[derive(Clone, Copy, Debug, Eq, PartialOrd, Ord, Hash)]
pub struct Hash256 {
    pub hash: [u8; 32],
}

impl PartialEq for Hash256 {
    fn eq(&self, o: &Hash256) -> (r: bool) {
        let mut i: usize = 0;
        while i < 32
            invariant
                i <= 32,
                forall|j: int| 0 <= j < i ==> self.hash@[j] == o.hash@[j],
            decreases 32 - i,
        {
            if self.hash[i] != o.hash[i] {
                return false;
            }
            i = i + 1;
        }
        proof {
            assert(self.hash@ =~= o.hash@);
        }
        true
    }
}

impl vstd::std_specs::cmp::PartialEqSpecImpl for Hash256 {
    open spec fn obeys_eq_spec() -> bool {
        true
    }

    open spec fn eq_spec(&self, o: &Hash256) -> bool {
        self.hash@ == o.hash@
    }
}

impl Hash256 {
    /// Whether two digests hold the same bytes.
    pub fn same(&self, o: &Hash256) -> (r: bool)
        ensures
            r == (self.hash@ == o.hash@),
    {
        *self == *o
    }
}

/// Byte-wise equality of two byte strings.
pub fn bytes_equal(a: &[u8], b: &[u8]) -> (r: bool)
    ensures
        r == (a@ == b@),
{
    if a.len() != b.len() {
        return false;
    }
    let mut i: usize = 0;
    while i < a.len()
        invariant
            i <= a@.len(),
            a@.len() == b@.len(),
            forall|j: int| 0 <= j < i ==> a@[j] == b@[j],
        decreases a@.len() - i,
    {
        if a[i] != b[i] {
            return false;
        }
        i = i + 1;
    }
    proof {
        assert(a@ =~= b@);
    }
    true
}

/// A serialized public key.
#[derive(Clone, Debug, PartialEq, Eq, Hash)]
pub struct PublicKey {
    pub key: Vec<u8>,
}

/// A signature together with the key that made it.
#[derive(Clone, Debug, PartialEq, Eq)]
pub struct TypedSignature {
    pub signature: Vec<u8>,
    pub signer: PublicKey,
}

/// A member of the validator set and its voting weight.
#[derive(Clone, Debug, PartialEq, Eq)]
pub struct Validator {
    pub key: PublicKey,
    pub weight: u64,
}

/// The governance data consulted during verification: the validator set and the
/// weight that a set of signatures must reach.
#[derive(Clone, Debug, PartialEq, Eq)]
pub struct ReservedState {
    pub validators: Vec<Validator>,
    pub quorum: u64,
}

/// An ordinary user transaction.
#[derive(Clone, Debug, PartialEq, Eq)]
pub struct Transaction {
    pub author: PublicKey,
    pub timestamp: u64,
    pub head: String,
    pub body: String,
}

/// A privileged transaction, admitted only before an agenda is proposed.
#[derive(Clone, Debug, PartialEq, Eq)]
pub struct ExtraAgendaTransaction {
    pub author: PublicKey,
    pub timestamp: u64,
    pub body: String,
}

/// The transactions of one round: `hash` is the digest over them at `height`.
#[derive(Clone, Debug, PartialEq, Eq)]
pub struct Agenda {
    pub author: PublicKey,
    pub timestamp: u64,
    pub height: u64,
    pub hash: Hash256,
}

/// A set of signatures over the digest of an agenda record.
#[derive(Clone, Debug, PartialEq, Eq)]
pub struct AgendaProof {
    pub height: u64,
    pub agenda_hash: Hash256,
    pub proof: Vec<TypedSignature>,
}

/// The header of a block.
#[derive(Clone, Debug, PartialEq, Eq)]
pub struct BlockHeader {
    pub author: PublicKey,
    pub previous_hash: Hash256,
    pub height: u64,
    pub timestamp: u64,
    pub agenda_hash: Hash256,
}

/// Signatures over the digest of a block header that finalize the block.
#[derive(Clone, Debug, PartialEq, Eq)]
pub struct FinalizationProof {
    pub signatures: Vec<TypedSignature>,
}

/// A semantic event: what a commit of the repository means.
#[derive(Clone, Debug, PartialEq, Eq)]
pub enum Commit {
    Genesis(ReservedState),
    Transaction(Transaction),
    ExtraAgendaTransaction(ExtraAgendaTransaction),
    Agenda(Agenda),
    AgendaProof(AgendaProof),
    /// A block, with the reserved state that it installs, if it changes it.
    Block(BlockHeader, Option<ReservedState>),
}

/// The variant of a semantic event, without its payload.
#[derive(Clone, Copy, Debug, PartialEq, Eq, Structural)]
pub enum CommitKind {
    Genesis,
    Transaction,
    ExtraAgendaTransaction,
    Agenda,
    AgendaProof,
    Block,
}

pub open spec fn kind_of(c: Commit) -> CommitKind {
    match c {
        Commit::Genesis(_) => CommitKind::Genesis,
        Commit::Transaction(_) => CommitKind::Transaction,
        Commit::ExtraAgendaTransaction(_) => CommitKind::ExtraAgendaTransaction,
        Commit::Agenda(_) => CommitKind::Agenda,
        Commit::AgendaProof(_) => CommitKind::AgendaProof,
        Commit::Block(_, _) => CommitKind::Block,
    }
}

impl Commit {
    /// The variant of this event.
    pub fn kind(&self) -> (r: CommitKind)
        ensures
            r == kind_of(*self),
    {
        match self {
            Commit::Genesis(_) => CommitKind::Genesis,
            Commit::Transaction(_) => CommitKind::Transaction,
            Commit::ExtraAgendaTransaction(_) => CommitKind::ExtraAgendaTransaction,
            Commit::Agenda(_) => CommitKind::Agenda,
            Commit::AgendaProof(_) => CommitKind::AgendaProof,
            Commit::Block(_, _) => CommitKind::Block,
        }
    }
}

} // verus!
