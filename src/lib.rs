pub mod ancestry;
pub mod branches;
pub mod codec;
pub mod crypto;
pub mod distributed;
pub mod encoding;
pub mod peers;
pub mod types;
pub mod sequence;

pub use types::{
    bytes_equal, Agenda, AgendaProof, BlockHeader, Commit, CommitHash, CommitKind,
    ExtraAgendaTransaction, FinalizationProof, Hash256, PublicKey, ReservedState, Transaction,
    TypedSignature, Validator,
};
