//! The closed failure taxonomies of the store.

use vstd::prelude::*;

verus! {

/// The closed, redacted failure taxonomy for opening a store.
#[derive(Clone, Copy, Debug, PartialEq, Eq, Structural)]
pub enum DurableOpenError {
    StoreInUse,
    UnsupportedStoreFormat,
    DurableStateCorrupt,
    DurableStateTooLarge,
    StorageUnavailable,
}

/// The closed, redacted failure taxonomy for one accepted Agent create request.
#[derive(Clone, Copy, Debug, PartialEq, Eq, Structural)]
pub enum DurableAgentCreateError {
    Closing,
    DurableStateTooLarge,
    IdentityUnavailable,
    CollisionAttemptsExhausted,
    StorageUnavailable,
    InternalDispatchUnavailable,
}

impl DurableAgentCreateError {
    pub open spec fn spec_message(self) -> Seq<char> {
        match self {
            DurableAgentCreateError::Closing => "durable state is closing"@,
            DurableAgentCreateError::DurableStateTooLarge =>
                "durable state exceeds its selected size limit"@,
            DurableAgentCreateError::IdentityUnavailable => "Agent identity is unavailable"@,
            DurableAgentCreateError::CollisionAttemptsExhausted =>
                "Agent identity allocation attempts are exhausted"@,
            DurableAgentCreateError::StorageUnavailable => "durable storage is unavailable"@,
            DurableAgentCreateError::InternalDispatchUnavailable =>
                "durable state dispatch is unavailable"@,
        }
    }

    /// The fixed text shown for this failure.
    pub fn message(self) -> (text: &'static str)
        ensures
            text@ == self.spec_message(),
    {
        match self {
            DurableAgentCreateError::Closing => "durable state is closing",
            DurableAgentCreateError::DurableStateTooLarge =>
                "durable state exceeds its selected size limit",
            DurableAgentCreateError::IdentityUnavailable => "Agent identity is unavailable",
            DurableAgentCreateError::CollisionAttemptsExhausted =>
                "Agent identity allocation attempts are exhausted",
            DurableAgentCreateError::StorageUnavailable => "durable storage is unavailable",
            DurableAgentCreateError::InternalDispatchUnavailable =>
                "durable state dispatch is unavailable",
        }
    }
}

/// How the document codec rejects a document.
#[derive(Clone, Copy, Debug, PartialEq, Eq, Structural)]
pub enum DurableStoreCodecError {
    DocumentTooLarge,
    JsonStructure,
    InvalidDocument,
    InvalidShape,
    InvalidScalar,
    InvalidSemantic,
    Noncanonical,
}

impl DurableStoreCodecError {
    /// Whether the document was rejected for its size or its structural bounds.
    pub open spec fn is_bound(self) -> bool {
        self is DocumentTooLarge || self is JsonStructure
    }
}

/// How a stored document is reported that could not be decoded.
pub open spec fn mapped_document_error(error: DurableStoreCodecError) -> DurableOpenError {
    if error.is_bound() {
        DurableOpenError::DurableStateTooLarge
    } else {
        DurableOpenError::DurableStateCorrupt
    }
}

/// Maps a decode failure of a stored document.
pub fn map_durable_document_codec_error(error: DurableStoreCodecError) -> (mapped: DurableOpenError)
    ensures
        mapped == mapped_document_error(error),
        mapped == if error.is_bound() {
            DurableOpenError::DurableStateTooLarge
        } else {
            DurableOpenError::DurableStateCorrupt
        },
{
    match error {
        DurableStoreCodecError::DocumentTooLarge | DurableStoreCodecError::JsonStructure =>
            DurableOpenError::DurableStateTooLarge,
        DurableStoreCodecError::InvalidDocument
        | DurableStoreCodecError::InvalidShape
        | DurableStoreCodecError::InvalidScalar
        | DurableStoreCodecError::InvalidSemantic
        | DurableStoreCodecError::Noncanonical => DurableOpenError::DurableStateCorrupt,
    }
}

/// How a publication reports a document that could not be encoded.
pub open spec fn publication_codec_error(error: DurableStoreCodecError) -> DurableAgentCreateError {
    if error.is_bound() {
        DurableAgentCreateError::DurableStateTooLarge
    } else {
        DurableAgentCreateError::StorageUnavailable
    }
}

/// Maps an encode failure of a document that is about to be published.
pub fn map_publication_codec_error(error: DurableStoreCodecError) -> (mapped:
    DurableAgentCreateError)
    ensures
        mapped == publication_codec_error(error),
{
    match error {
        DurableStoreCodecError::DocumentTooLarge | DurableStoreCodecError::JsonStructure =>
            DurableAgentCreateError::DurableStateTooLarge,
        DurableStoreCodecError::InvalidDocument
        | DurableStoreCodecError::InvalidShape
        | DurableStoreCodecError::InvalidScalar
        | DurableStoreCodecError::InvalidSemantic
        | DurableStoreCodecError::Noncanonical => DurableAgentCreateError::StorageUnavailable,
    }
}

/// How the conversation scanner rejects the conversation of an unpublished session.
#[derive(Clone, Copy, Debug, PartialEq, Eq, Structural)]
pub enum UnpublishedConversationRecoveryError {
    TooLarge,
    Corrupt,
    Unavailable,
}

pub open spec fn mapped_conversation_error(
    error: UnpublishedConversationRecoveryError,
) -> DurableOpenError {
    match error {
        UnpublishedConversationRecoveryError::TooLarge => DurableOpenError::DurableStateTooLarge,
        UnpublishedConversationRecoveryError::Corrupt => DurableOpenError::DurableStateCorrupt,
        UnpublishedConversationRecoveryError::Unavailable => DurableOpenError::StorageUnavailable,
    }
}

/// Maps a rejected unpublished conversation.
pub fn map_unpublished_conversation_recovery_error(
    error: UnpublishedConversationRecoveryError,
) -> (mapped: DurableOpenError)
    ensures
        mapped == mapped_conversation_error(error),
{
    match error {
        UnpublishedConversationRecoveryError::TooLarge => DurableOpenError::DurableStateTooLarge,
        UnpublishedConversationRecoveryError::Corrupt => DurableOpenError::DurableStateCorrupt,
        UnpublishedConversationRecoveryError::Unavailable => DurableOpenError::StorageUnavailable,
    }
}

/// Why a tracked task did not hand back its own result.
#[derive(Clone, Copy, Debug, PartialEq, Eq, Structural)]
pub enum RuntimeTaskError {
    OwnerClosing,
    WorkerUnavailable,
    OperationPanicked,
}

} // verus!
