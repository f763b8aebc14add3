//! What can go wrong while a session synchronises.

use vstd::prelude::*;
use vstd::string::*;
use crate::storage::BlockHeight;

verus! {

/// An error of extraction or of scanning. Each fails the one call that met
/// it; none is replaced by a default.
#[derive(Clone, Debug, PartialEq, Eq)]
pub enum Error {
    /// The section that the wrapper header names is not in the transaction.
    MissingUnshieldSection,
    /// The section that was named carries no shielded payload.
    MissingMaspTransaction,
    /// The event has no `inner_tx` attribute with the result of the execution.
    MissingTxResult,
    /// The `inner_tx` attribute of the event does not decode.
    MalformedTxResult(String),
    /// The transaction has no data section.
    MissingDataSection,
    /// The transfer names no section with a shielded payload.
    MissingMaspSectionHash,
    /// The section that the transfer names is not in the transaction.
    MissingMaspSection,
    /// The data is neither a transfer nor a message between chains.
    InvalidIbcMessage(String),
    /// The event of a shielded transfer between chains has no `inner_tx`
    /// attribute to take the changed keys from.
    MissingChangedKeys,
    /// The block holds no event of a valid shielded transaction.
    MissingIbcEvent(BlockHeight),
    /// No event that the envelope emitted carries a shielded transfer.
    MissingShieldedTransfer,
    /// The message between chains is of a kind that carries no shielded
    /// payload.
    NotShieldedAction,
    /// The ledger node did not answer the query.
    Query(String),
    /// An `is_valid_masp_tx` attribute is not an unsigned number.
    MalformedTxIndex,
    /// The commitment tree has no room for another note.
    TreeFull,
    /// The trial decryptions handed in do not match the outputs of the payload.
    DecryptionMismatch,
    /// The transaction was given no place in the commitment tree.
    UnknownNotePosition,
}

/// The classes of errors.
#[derive(Clone, Copy, Debug, PartialEq, Eq, Structural)]
pub enum ErrorKind {
    /// A payload or an event is malformed, or of a kind that is not supported.
    Decode,
    /// A section, an attribute or an event that was expected is absent.
    MissingData,
    /// Trial decryption or the update of the witnesses failed.
    Cryptographic,
    /// The ledger node did not answer.
    Query,
}

impl Error {
    /// The class of the error.
    pub open spec fn spec_kind(&self) -> ErrorKind {
        match *self {
            Error::MalformedTxResult(_) | Error::InvalidIbcMessage(_)
            | Error::NotShieldedAction | Error::MalformedTxIndex => {
                ErrorKind::Decode
            },
            Error::MissingUnshieldSection
            | Error::MissingMaspTransaction | Error::MissingTxResult | Error::MissingDataSection
            | Error::MissingMaspSectionHash | Error::MissingMaspSection | Error::MissingChangedKeys
            | Error::MissingIbcEvent(_) | Error::MissingShieldedTransfer => ErrorKind::MissingData,
            Error::TreeFull | Error::DecryptionMismatch | Error::UnknownNotePosition => {
                ErrorKind::Cryptographic
            },
            Error::Query(_) => ErrorKind::Query,
        }
    }

    /// The class of the error.
    #[verifier::when_used_as_spec(spec_kind)]
    pub fn kind(&self) -> (r: ErrorKind)
        ensures
            r == self.spec_kind(),
    {
        match self {
            Error::MalformedTxResult(_) | Error::InvalidIbcMessage(_)
            | Error::NotShieldedAction | Error::MalformedTxIndex => {
                ErrorKind::Decode
            },
            Error::MissingUnshieldSection
            | Error::MissingMaspTransaction | Error::MissingTxResult | Error::MissingDataSection
            | Error::MissingMaspSectionHash | Error::MissingMaspSection | Error::MissingChangedKeys
            | Error::MissingIbcEvent(_) | Error::MissingShieldedTransfer => ErrorKind::MissingData,
            Error::TreeFull | Error::DecryptionMismatch | Error::UnknownNotePosition => {
                ErrorKind::Cryptographic
            },
            Error::Query(_) => ErrorKind::Query,
        }
    }
}

} // verus!
