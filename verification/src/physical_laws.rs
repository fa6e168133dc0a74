//! Which nodes and files a store accepts, said over what was seen of them.

use crate::open_error::DurableOpenError;
use crate::physical;
use crate::physical::{
    CleanupNodeIdentityShape, CleanupRegularFileShape, DocumentObservation, Lookup, LookupError,
    NodeKind, NodeMetadata, OpenFileObservation, StoreLimits, ZeroFileObservation,
};
use vstd::prelude::*;

verus! {

/// A node is private exactly if it is of the right kind and its twelve permission bits grant its owner
/// reading and writing, of a directory also entering, and nobody else anything; its length, its
/// identity and the bits above do not matter.
pub proof fn law_private_nodes(metadata: NodeMetadata)
    ensures
        metadata.is_private_file() <==> metadata.kind == NodeKind::Regular && metadata.mode % 4096
            == 384,
        metadata.is_private_directory() <==> metadata.kind == NodeKind::Directory && metadata.mode
            % 4096 == 448,
        metadata.permissions() == metadata.mode % 4096,
{
}

/// Whether a node was seen as one and the same private file of a length.
pub open spec fn shows(lookup: Lookup, identity: CleanupNodeIdentityShape, length: u64) -> bool {
    match lookup {
        Ok(metadata) => {
            &&& metadata.kind == NodeKind::Regular
            &&& metadata.mode % 4096 == 384
            &&& metadata.identity == identity
            &&& metadata.length == length
        },
        Err(_) => false,
    }
}

/// Whether all five looks at a file show the same private file of a length.
pub open spec fn is_stable(
    file: OpenFileObservation,
    identity: CleanupNodeIdentityShape,
    length: u64,
) -> bool {
    &&& file.opened
    &&& shows(file.initial_path, identity, length)
    &&& shows(file.handle, identity, length)
    &&& shows(file.path, identity, length)
    &&& shows(file.final_handle, identity, length)
    &&& shows(file.final_path, identity, length)
}

/// A document is read exactly if all five looks show the same private file, within the limit, and the
/// content has the length that they show; what is read is that content, whatever it says.
pub proof fn law_a_stable_document_is_read(observation: DocumentObservation, limits: StoreLimits)
    ensures
        observation.outcome(limits) matches Ok(content) ==> {
            &&& observation.content is Some
            &&& content == observation.content->0@
            &&& content.len() <= limits.document_bytes
            &&& exists|identity: CleanupNodeIdentityShape| #[trigger]
                is_stable(observation.file, identity, content.len() as u64)
        },
        forall|identity: CleanupNodeIdentityShape, length: u64| #[trigger]
            is_stable(observation.file, identity, length) && observation.content is Some
                && observation.content->0@.len() == length && length <= limits.document_bytes
                ==> observation.outcome(limits) == Ok::<Seq<u8>, DurableOpenError>(
                observation.content->0@,
            ),
{
    if observation.outcome(limits) is Ok {
        let initial = observation.file.initial_path->Ok_0;
        let content = observation.content->0@;
        assert(is_stable(observation.file, initial.identity, content.len() as u64));
    }
}

/// Why a document is not read: what is not a private file is corrupt and what is longer than the limit
/// is too large, both at first sight; whatever else goes wrong leaves the storage unavailable.
pub proof fn law_why_a_document_is_not_read(observation: DocumentObservation, limits: StoreLimits)
    ensures
        match observation.file.initial_path {
            Err(_) => observation.outcome(limits) == Err::<Seq<u8>, DurableOpenError>(
                DurableOpenError::StorageUnavailable,
            ),
            Ok(initial) => if initial.kind != NodeKind::Regular || initial.mode % 4096 != 384 {
                observation.outcome(limits) == Err::<Seq<u8>, DurableOpenError>(
                    DurableOpenError::DurableStateCorrupt,
                )
            } else if initial.length > limits.document_bytes {
                observation.outcome(limits) == Err::<Seq<u8>, DurableOpenError>(
                    DurableOpenError::DurableStateTooLarge,
                )
            } else {
                observation.outcome(limits) is Err ==> observation.outcome(limits) == Err::<
                    Seq<u8>,
                    DurableOpenError,
                >(DurableOpenError::StorageUnavailable)
            },
        },
{
}

/// A marker is accepted exactly if all five looks show the same empty private file and a read of it
/// returns nothing; it is known by that file's identity.
pub proof fn law_a_stable_empty_file_is_a_marker(observation: ZeroFileObservation)
    ensures
        forall|identity: CleanupNodeIdentityShape|
            observation.outcome() == Ok::<CleanupNodeIdentityShape, DurableOpenError>(identity)
                <==> #[trigger] is_stable(observation.file, identity, 0) && observation.read
                == Some(0usize),
        match observation.file.initial_path {
            Err(_) => observation.outcome() == Err::<CleanupNodeIdentityShape, DurableOpenError>(
                DurableOpenError::StorageUnavailable,
            ),
            Ok(initial) => initial.kind != NodeKind::Regular || initial.mode % 4096 != 384
                || initial.length != 0 ==> observation.outcome() == Err::<
                CleanupNodeIdentityShape,
                DurableOpenError,
            >(DurableOpenError::DurableStateCorrupt),
        },
        observation.file.initial_path is Ok && shows(
            observation.file.initial_path,
            observation.file.initial_path->Ok_0.identity,
            0,
        ) && (!observation.file.opened || observation.read is None) ==> observation.outcome()
            == Err::<CleanupNodeIdentityShape, DurableOpenError>(
            DurableOpenError::StorageUnavailable,
        ),
        observation.file.opened && observation.read is Some && observation.read != Some(0usize)
            && observation.file.initial_path is Ok && shows(
            observation.file.initial_path,
            observation.file.initial_path->Ok_0.identity,
            0,
        ) && shows(
            observation.file.handle,
            observation.file.initial_path->Ok_0.identity,
            0,
        ) && shows(
            observation.file.path,
            observation.file.initial_path->Ok_0.identity,
            0,
        ) ==> observation.outcome() == Err::<CleanupNodeIdentityShape, DurableOpenError>(
            DurableOpenError::DurableStateCorrupt,
        ),
{
}

/// A document or conversation that is only looked at is accepted exactly if it is a private file of at
/// most the limit, the limit included; it is known by its length and its identity.
pub proof fn law_bounded_files_are_known_by_length_and_identity(
    lookup: Lookup,
    limits: StoreLimits,
)
    ensures
        match lookup {
            Ok(metadata) => {
                let shape = CleanupRegularFileShape {
                    length: metadata.length,
                    node: metadata.identity,
                };
                let private = metadata.kind == NodeKind::Regular && metadata.mode % 4096 == 384;
                let corrupt = Err::<CleanupRegularFileShape, DurableOpenError>(
                    DurableOpenError::DurableStateCorrupt,
                );
                let large = Err::<CleanupRegularFileShape, DurableOpenError>(
                    DurableOpenError::DurableStateTooLarge,
                );
                let accepted = Ok::<CleanupRegularFileShape, DurableOpenError>(shape);
                &&& !private ==> {
                    &&& physical::document_shape(lookup, limits) == corrupt
                    &&& physical::cleanup_document_shape(lookup, limits) == corrupt
                    &&& physical::conversation_shape(lookup, limits) == corrupt
                }
                &&& private && metadata.length <= limits.document_bytes ==> {
                    &&& physical::document_shape(lookup, limits) == accepted
                    &&& physical::cleanup_document_shape(lookup, limits) == accepted
                }
                &&& private && metadata.length > limits.document_bytes ==> {
                    &&& physical::document_shape(lookup, limits) == large
                    &&& physical::cleanup_document_shape(lookup, limits) == large
                }
                &&& private && metadata.length <= limits.conversation_bytes
                    ==> physical::conversation_shape(lookup, limits) == accepted
                &&& private && metadata.length > limits.conversation_bytes
                    ==> physical::conversation_shape(lookup, limits) == large
            },
            Err(error) => {
                let unavailable = Err::<CleanupRegularFileShape, DurableOpenError>(
                    DurableOpenError::StorageUnavailable,
                );
                &&& physical::document_shape(lookup, limits) == unavailable
                &&& physical::conversation_shape(lookup, limits) == unavailable
                &&& physical::cleanup_document_shape(lookup, limits) == if error
                    == LookupError::NotFound {
                    Err::<CleanupRegularFileShape, DurableOpenError>(
                        DurableOpenError::DurableStateCorrupt,
                    )
                } else {
                    unavailable
                }
            },
        },
{
}

/// A node that is looked at before a removal: it must still be there, a marker must be an empty private
/// file, and what must be absent must be found absent.
pub proof fn law_looks_before_a_removal(lookup: Lookup)
    ensures
        match lookup {
            Ok(metadata) => {
                &&& physical::seen_for_cleanup(lookup) == Ok::<NodeMetadata, DurableOpenError>(
                    metadata,
                )
                &&& physical::cleanup_zero_shape(lookup) == if metadata.kind == NodeKind::Regular
                    && metadata.mode % 4096 == 384 && metadata.length == 0 {
                    Ok::<CleanupNodeIdentityShape, DurableOpenError>(metadata.identity)
                } else {
                    Err(DurableOpenError::DurableStateCorrupt)
                }
                &&& physical::absence(lookup) == Err::<(), DurableOpenError>(
                    DurableOpenError::DurableStateCorrupt,
                )
            },
            Err(LookupError::NotFound) => {
                &&& physical::seen_for_cleanup(lookup) == Err::<NodeMetadata, DurableOpenError>(
                    DurableOpenError::DurableStateCorrupt,
                )
                &&& physical::cleanup_zero_shape(lookup) == Err::<
                    CleanupNodeIdentityShape,
                    DurableOpenError,
                >(DurableOpenError::DurableStateCorrupt)
                &&& physical::absence(lookup) == Ok::<(), DurableOpenError>(())
            },
            Err(LookupError::Unreadable) => {
                &&& physical::seen_for_cleanup(lookup) == Err::<NodeMetadata, DurableOpenError>(
                    DurableOpenError::StorageUnavailable,
                )
                &&& physical::cleanup_zero_shape(lookup) == Err::<
                    CleanupNodeIdentityShape,
                    DurableOpenError,
                >(DurableOpenError::StorageUnavailable)
                &&& physical::absence(lookup) == Err::<(), DurableOpenError>(
                    DurableOpenError::StorageUnavailable,
                )
            },
        },
{
}

/// An entry of a directory is accepted exactly if it is private and of the expected kind; what cannot
/// be looked up is unavailable, whatever error a wrong entry is reported with.
pub proof fn law_entries_are_private(lookup: Lookup, error: DurableOpenError)
    ensures
        match lookup {
            Ok(metadata) => {
                &&& physical::seen(lookup) == Ok::<NodeMetadata, DurableOpenError>(metadata)
                &&& physical::regular_entry(lookup, error) == if metadata.kind == NodeKind::Regular
                    && metadata.mode % 4096 == 384 {
                    Ok::<(), DurableOpenError>(())
                } else {
                    Err(error)
                }
                &&& physical::directory_entry(lookup, error) == if metadata.kind
                    == NodeKind::Directory && metadata.mode % 4096 == 448 {
                    Ok::<(), DurableOpenError>(())
                } else {
                    Err(error)
                }
            },
            Err(_) => {
                &&& physical::seen(lookup) == Err::<NodeMetadata, DurableOpenError>(
                    DurableOpenError::StorageUnavailable,
                )
                &&& physical::regular_entry(lookup, error) == Err::<(), DurableOpenError>(
                    DurableOpenError::StorageUnavailable,
                )
                &&& physical::directory_entry(lookup, error) == Err::<(), DurableOpenError>(
                    DurableOpenError::StorageUnavailable,
                )
            },
        },
        physical::has_new_file_mode(lookup) <==> (lookup matches Ok(metadata) && metadata.mode % 4096
            == 384),
{
}

/// Why an empty file that looks right at first sight is no marker: only a read that returns something,
/// of a file that was opened unchanged, is corrupt; everything else leaves the storage unavailable.
pub proof fn law_why_an_empty_file_is_no_marker(observation: ZeroFileObservation)
    requires
        observation.file.initial_path is Ok,
        shows(
            observation.file.initial_path,
            observation.file.initial_path->Ok_0.identity,
            0,
        ),
    ensures
        ({
            let identity = observation.file.initial_path->Ok_0.identity;
            let unchanged = observation.file.opened && shows(observation.file.handle, identity, 0)
                && shows(observation.file.path, identity, 0);
            let unavailable = Err::<CleanupNodeIdentityShape, DurableOpenError>(
                DurableOpenError::StorageUnavailable,
            );
            if !unchanged || observation.read is None {
                observation.outcome() == unavailable
            } else if observation.read != Some(0usize) {
                observation.outcome() == Err::<CleanupNodeIdentityShape, DurableOpenError>(
                    DurableOpenError::DurableStateCorrupt,
                )
            } else if !shows(observation.file.final_handle, identity, 0) || !shows(
                observation.file.final_path,
                identity,
                0,
            ) {
                observation.outcome() == unavailable
            } else {
                observation.outcome() == Ok::<CleanupNodeIdentityShape, DurableOpenError>(identity)
            }
        }),
{
}

} // verus!
