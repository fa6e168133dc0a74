//! What the filesystem shows of one node, and what a store accepts of it.
//!
//! Nothing here touches the filesystem. Callers look nodes up and hand in what they saw; a platform
//! without permission bits or node identities hands in the private mode and one fixed identity.

use crate::open_error::DurableOpenError;
use vstd::prelude::*;

verus! {

pub const PRIVATE_DIRECTORY_MODE: u32 = 0o700;

pub const PRIVATE_FILE_MODE: u32 = 0o600;

/// The kind of a node, as seen without following a symbolic link.
#[derive(Clone, Copy, Debug, PartialEq, Eq, Structural)]
pub enum NodeKind {
    Regular,
    Directory,
    Symlink,
    Other,
}

/// The platform-observable identity of a node, retained only to revalidate it before a cleanup.
#[derive(Clone, Copy, PartialEq, Eq, Structural)]
pub struct CleanupNodeIdentityShape {
    pub device: u64,
    pub inode: u64,
}

/// A regular file observation: its node identity and its byte length.
#[derive(Clone, Copy, PartialEq, Eq, Structural)]
pub struct CleanupRegularFileShape {
    pub length: u64,
    pub node: CleanupNodeIdentityShape,
}

/// One metadata observation.
#[derive(Clone, Copy, PartialEq, Eq, Structural)]
pub struct NodeMetadata {
    pub kind: NodeKind,
    pub mode: u32,
    pub length: u64,
    pub identity: CleanupNodeIdentityShape,
}

/// Why a lookup showed nothing.
#[derive(Clone, Copy, Debug, PartialEq, Eq, Structural)]
pub enum LookupError {
    NotFound,
    Unreadable,
}

/// One lookup of a node that does not follow symbolic links.
pub type Lookup = Result<NodeMetadata, LookupError>;

/// The byte limits that the document codec and the conversation scanner set.
#[derive(Clone, Copy, Debug, PartialEq, Eq, Structural)]
pub struct StoreLimits {
    pub document_bytes: usize,
    pub conversation_bytes: u64,
}

pub const MAX_DURABLE_DOCUMENT_BYTES: usize = 1_048_576;

pub const MAX_CONVERSATION_FILE_BYTES: u64 = 1_073_741_824;

impl StoreLimits {
    /// The limits of a production store.
    pub fn production() -> (limits: Self)
        ensures
            limits == (StoreLimits {
                document_bytes: MAX_DURABLE_DOCUMENT_BYTES,
                conversation_bytes: MAX_CONVERSATION_FILE_BYTES,
            }),
    {
        StoreLimits {
            document_bytes: MAX_DURABLE_DOCUMENT_BYTES,
            conversation_bytes: MAX_CONVERSATION_FILE_BYTES,
        }
    }
}

/// The observations of one file around a single open.
#[derive(Clone, Copy)]
pub struct OpenFileObservation {
    /// The path before the open.
    pub initial_path: Lookup,
    /// Whether the open succeeded.
    pub opened: bool,
    /// The open handle, then the path, directly after the open.
    pub handle: Lookup,
    pub path: Lookup,
    /// The open handle, then the path, after the read.
    pub final_handle: Lookup,
    pub final_path: Lookup,
}

/// The observations of a file that is expected to be empty.
#[derive(Clone, Copy)]
pub struct ZeroFileObservation {
    pub file: OpenFileObservation,
    /// The length of a one-byte read, or `None` when the read failed.
    pub read: Option<usize>,
}

/// The observations of a bounded document read.
pub struct DocumentObservation {
    pub file: OpenFileObservation,
    /// What the bounded read collected, or `None` when a read failed.
    pub content: Option<Vec<u8>>,
}

impl NodeMetadata {
    /// The permission bits with the set-id and sticky bits.
    pub open spec fn permissions(self) -> int {
        self.mode as int % 0o10000
    }

    /// A regular file that only its owner may read and write.
    pub open spec fn is_private_file(self) -> bool {
        self.kind is Regular && self.permissions() == PRIVATE_FILE_MODE
    }

    /// A directory that only its owner may use.
    pub open spec fn is_private_directory(self) -> bool {
        self.kind is Directory && self.permissions() == PRIVATE_DIRECTORY_MODE
    }

    pub fn is_directory(&self) -> (result: bool)
        ensures
            result == (self.kind is Directory),
    {
        matches!(self.kind, NodeKind::Directory)
    }
}

pub open spec fn checked(condition: bool, error: DurableOpenError) -> Result<(), DurableOpenError> {
    if condition {
        Ok(())
    } else {
        Err(error)
    }
}

/// The lookup as recovery reads it: every failure leaves the storage unavailable.
pub open spec fn seen(lookup: Lookup) -> Result<NodeMetadata, DurableOpenError> {
    match lookup {
        Ok(metadata) => Ok(metadata),
        Err(_) => Err(DurableOpenError::StorageUnavailable),
    }
}

/// The lookup as a cleanup reads it: a vanished node is corruption.
pub open spec fn seen_for_cleanup(lookup: Lookup) -> Result<NodeMetadata, DurableOpenError> {
    match lookup {
        Ok(metadata) => Ok(metadata),
        Err(LookupError::NotFound) => Err(DurableOpenError::DurableStateCorrupt),
        Err(LookupError::Unreadable) => Err(DurableOpenError::StorageUnavailable),
    }
}

pub fn metadata_without_following(lookup: Lookup) -> (result: Result<NodeMetadata, DurableOpenError>)
    ensures
        result == seen(lookup),
{
    match lookup {
        Ok(metadata) => Ok(metadata),
        Err(_) => Err(DurableOpenError::StorageUnavailable),
    }
}

pub fn cleanup_metadata_without_following(lookup: Lookup) -> (result: Result<
    NodeMetadata,
    DurableOpenError,
>)
    ensures
        result == seen_for_cleanup(lookup),
{
    match lookup {
        Ok(metadata) => Ok(metadata),
        Err(LookupError::NotFound) => Err(DurableOpenError::DurableStateCorrupt),
        Err(LookupError::Unreadable) => Err(DurableOpenError::StorageUnavailable),
    }
}

fn has_permissions(metadata: &NodeMetadata, expected: u32) -> (result: bool)
    ensures
        result == (metadata.permissions() == expected),
{
    let mode: u32 = metadata.mode;
    assert(mode & 0o7777 == mode % 0o10000) by (bit_vector);
    mode & 0o7777 == expected
}

pub fn validate_existing_directory_mode(metadata: &NodeMetadata, error: DurableOpenError) -> (result:
    Result<(), DurableOpenError>)
    ensures
        result == checked(metadata.permissions() == PRIVATE_DIRECTORY_MODE, error),
{
    if !has_permissions(metadata, PRIVATE_DIRECTORY_MODE) {
        return Err(error);
    }
    Ok(())
}

pub fn validate_existing_regular_file_mode(
    metadata: &NodeMetadata,
    error: DurableOpenError,
) -> (result: Result<(), DurableOpenError>)
    ensures
        result == checked(metadata.permissions() == PRIVATE_FILE_MODE, error),
{
    if !has_permissions(metadata, PRIVATE_FILE_MODE) {
        return Err(error);
    }
    Ok(())
}

pub fn validate_existing_regular_file(metadata: &NodeMetadata, error: DurableOpenError) -> (result:
    Result<(), DurableOpenError>)
    ensures
        result == checked(metadata.is_private_file(), error),
{
    if !matches!(metadata.kind, NodeKind::Regular) {
        return Err(error);
    }
    validate_existing_regular_file_mode(metadata, error)
}

pub fn validate_existing_directory(metadata: &NodeMetadata, error: DurableOpenError) -> (result:
    Result<(), DurableOpenError>)
    ensures
        result == checked(metadata.is_private_directory(), error),
{
    if !metadata.is_directory() {
        return Err(error);
    }
    validate_existing_directory_mode(metadata, error)
}

pub fn validate_root_directory(metadata: &NodeMetadata) -> (result: Result<(), DurableOpenError>)
    ensures
        result == checked(metadata.is_private_directory(), DurableOpenError::StorageUnavailable),
{
    validate_existing_directory(metadata, DurableOpenError::StorageUnavailable)
}

/// A directory that was just created carries the private mode.
pub fn validate_new_directory_mode(metadata: &NodeMetadata) -> (result: Result<
    (),
    DurableOpenError,
>)
    ensures
        result == checked(
            metadata.permissions() == PRIVATE_DIRECTORY_MODE,
            DurableOpenError::StorageUnavailable,
        ),
{
    validate_existing_directory_mode(metadata, DurableOpenError::StorageUnavailable)
}

/// Whether a handle was seen with the private file mode.
pub open spec fn has_new_file_mode(handle: Lookup) -> bool {
    handle matches Ok(metadata) && metadata.permissions() == PRIVATE_FILE_MODE
}

/// A file that was just created or opened carries the private mode.
pub fn validate_new_file_mode(handle: Lookup) -> (result: Result<(), DurableOpenError>)
    ensures
        result == checked(has_new_file_mode(handle), DurableOpenError::StorageUnavailable),
{
    match handle {
        Ok(metadata) => validate_existing_regular_file_mode(
            &metadata,
            DurableOpenError::StorageUnavailable,
        ),
        Err(_) => Err(DurableOpenError::StorageUnavailable),
    }
}

pub fn validate_same_file_identity(first: &NodeMetadata, second: &NodeMetadata) -> (result: Result<
    (),
    DurableOpenError,
>)
    ensures
        result == checked(
            first.identity == second.identity,
            DurableOpenError::StorageUnavailable,
        ),
{
    if first.identity.device != second.identity.device || first.identity.inode
        != second.identity.inode {
        return Err(DurableOpenError::StorageUnavailable);
    }
    Ok(())
}

/// Three observations that show one unchanged private file.
pub open spec fn same_open_file(
    initial: NodeMetadata,
    handle: NodeMetadata,
    path: NodeMetadata,
) -> bool {
    &&& handle.is_private_file()
    &&& path.is_private_file()
    &&& initial.length == handle.length == path.length
    &&& initial.identity == handle.identity
    &&& handle.identity == path.identity
}

pub fn validate_open_file_observation(
    initial_path_metadata: &NodeMetadata,
    handle_metadata: &NodeMetadata,
    path_metadata: &NodeMetadata,
) -> (result: Result<(), DurableOpenError>)
    ensures
        result == checked(
            same_open_file(*initial_path_metadata, *handle_metadata, *path_metadata),
            DurableOpenError::StorageUnavailable,
        ),
{
    validate_existing_regular_file(handle_metadata, DurableOpenError::StorageUnavailable)?;
    validate_existing_regular_file(path_metadata, DurableOpenError::StorageUnavailable)?;
    if initial_path_metadata.length != handle_metadata.length || initial_path_metadata.length
        != path_metadata.length {
        return Err(DurableOpenError::StorageUnavailable);
    }
    validate_same_file_identity(initial_path_metadata, handle_metadata)?;
    validate_same_file_identity(handle_metadata, path_metadata)
}

impl OpenFileObservation {
    /// The open, and the two observations directly after it, show the file that was looked up.
    pub open spec fn opens_unchanged(self, initial: NodeMetadata) -> bool {
        &&& self.opened
        &&& self.handle matches Ok(handle)
        &&& self.path matches Ok(path)
        &&& same_open_file(initial, handle, path)
    }

    /// The two observations after the read still show the file that was looked up.
    pub open spec fn ends_unchanged(self, initial: NodeMetadata) -> bool {
        &&& self.final_handle matches Ok(handle)
        &&& self.final_path matches Ok(path)
        &&& same_open_file(initial, handle, path)
    }

    pub(crate) fn check_opened(&self, initial: &NodeMetadata) -> (result: Result<(), DurableOpenError>)
        ensures
            result == checked(self.opens_unchanged(*initial), DurableOpenError::StorageUnavailable),
    {
        if !self.opened {
            return Err(DurableOpenError::StorageUnavailable);
        }
        match (metadata_without_following(self.handle), metadata_without_following(self.path)) {
            (Ok(handle), Ok(path)) => validate_open_file_observation(initial, &handle, &path),
            _ => Err(DurableOpenError::StorageUnavailable),
        }
    }

    pub(crate) fn check_unchanged_at_end(&self, initial: &NodeMetadata) -> (result: Result<
        (),
        DurableOpenError,
    >)
        ensures
            result == checked(self.ends_unchanged(*initial), DurableOpenError::StorageUnavailable),
    {
        match (
            metadata_without_following(self.final_handle),
            metadata_without_following(self.final_path),
        ) {
            (Ok(handle), Ok(path)) => validate_open_file_observation(initial, &handle, &path),
            _ => Err(DurableOpenError::StorageUnavailable),
        }
    }
}

pub fn cleanup_node_identity_shape(metadata: &NodeMetadata) -> (shape: CleanupNodeIdentityShape)
    ensures
        shape == metadata.identity,
{
    metadata.identity
}

pub open spec fn regular_shape(metadata: NodeMetadata) -> CleanupRegularFileShape {
    CleanupRegularFileShape { length: metadata.length, node: metadata.identity }
}

pub fn cleanup_regular_file_shape(metadata: &NodeMetadata) -> (shape: CleanupRegularFileShape)
    ensures
        shape == regular_shape(*metadata),
{
    CleanupRegularFileShape {
        length: metadata.length,
        node: cleanup_node_identity_shape(metadata),
    }
}

impl ZeroFileObservation {
    /// What the observations of an expected empty file amount to, the earliest observation first.
    pub open spec fn outcome(self) -> Result<CleanupNodeIdentityShape, DurableOpenError> {
        match self.file.initial_path {
            Err(_) => Err(DurableOpenError::StorageUnavailable),
            Ok(initial) => if !initial.is_private_file() || initial.length != 0 {
                Err(DurableOpenError::DurableStateCorrupt)
            } else if !self.file.opens_unchanged(initial) || self.read is None {
                Err(DurableOpenError::StorageUnavailable)
            } else if self.read != Some(0usize) {
                Err(DurableOpenError::DurableStateCorrupt)
            } else if !self.file.ends_unchanged(initial) {
                Err(DurableOpenError::StorageUnavailable)
            } else {
                Ok(initial.identity)
            },
        }
    }
}

/// Accepts a private empty file that one open, one read and five lookups all show unchanged.
pub fn validate_zero_regular_file(observation: &ZeroFileObservation) -> (result: Result<
    CleanupNodeIdentityShape,
    DurableOpenError,
>)
    ensures
        result == observation.outcome(),
{
    let initial = match metadata_without_following(observation.file.initial_path) {
        Ok(metadata) => metadata,
        Err(error) => return Err(error),
    };
    validate_existing_regular_file(&initial, DurableOpenError::DurableStateCorrupt)?;
    if initial.length != 0 {
        return Err(DurableOpenError::DurableStateCorrupt);
    }
    observation.file.check_opened(&initial)?;
    match observation.read {
        None => return Err(DurableOpenError::StorageUnavailable),
        Some(length) => if length != 0 {
            return Err(DurableOpenError::DurableStateCorrupt);
        },
    }
    observation.file.check_unchanged_at_end(&initial)?;
    match observation.file.final_path {
        Ok(metadata) => Ok(cleanup_node_identity_shape(&metadata)),
        Err(_) => Err(DurableOpenError::StorageUnavailable),
    }
}

impl DocumentObservation {
    /// What a bounded document read amounts to, the earliest observation first.
    pub open spec fn outcome(self, limits: StoreLimits) -> Result<Seq<u8>, DurableOpenError> {
        match self.file.initial_path {
            Err(_) => Err(DurableOpenError::StorageUnavailable),
            Ok(initial) => if !initial.is_private_file() {
                Err(DurableOpenError::DurableStateCorrupt)
            } else if initial.length > limits.document_bytes {
                Err(DurableOpenError::DurableStateTooLarge)
            } else if !self.file.opens_unchanged(initial) || self.content is None
                || !self.file.ends_unchanged(initial) || self.content->0@.len() != initial.length {
                Err(DurableOpenError::StorageUnavailable)
            } else {
                Ok(self.content->0@)
            },
        }
    }
}

/// Accepts the bytes of one document that one open and five lookups all show unchanged, as long as
/// they are within the document limit and as many as the file was said to hold.
pub fn read_durable_document(observation: DocumentObservation, limits: StoreLimits) -> (result:
    Result<Vec<u8>, DurableOpenError>)
    ensures
        result is Ok <==> observation.outcome(limits) is Ok,
        result matches Ok(bytes) ==> observation.outcome(limits) == Ok::<Seq<u8>, DurableOpenError>(
            bytes@,
        ),
        result matches Err(error) ==> observation.outcome(limits) == Err::<
            Seq<u8>,
            DurableOpenError,
        >(error),
{
    let initial = match metadata_without_following(observation.file.initial_path) {
        Ok(metadata) => metadata,
        Err(error) => return Err(error),
    };
    validate_existing_regular_file(&initial, DurableOpenError::DurableStateCorrupt)?;
    if initial.length > limits.document_bytes as u64 {
        return Err(DurableOpenError::DurableStateTooLarge);
    }
    observation.file.check_opened(&initial)?;
    let bytes = match observation.content {
        Some(bytes) => bytes,
        None => return Err(DurableOpenError::StorageUnavailable),
    };
    observation.file.check_unchanged_at_end(&initial)?;
    if bytes.len() as u64 != initial.length {
        return Err(DurableOpenError::StorageUnavailable);
    }
    Ok(bytes)
}

/// The largest request of one document read.
pub const DOCUMENT_READ_BUFFER: usize = 8_192;

/// The progress of a bounded document read: it ends at the end of the file, and in any case one byte
/// past the document limit.
pub struct DocumentReadProgress {
    bytes: Vec<u8>,
    maximum: usize,
    ended: bool,
}

impl DocumentReadProgress {
    pub closed spec fn collected(&self) -> Seq<u8> {
        self.bytes@
    }

    pub closed spec fn bound(&self) -> nat {
        self.maximum as nat
    }

    pub closed spec fn has_ended(&self) -> bool {
        self.ended
    }

    #[verifier::type_invariant]
    spec fn within_bound(&self) -> bool {
        self.bytes@.len() <= self.maximum
    }

    pub fn new(limits: StoreLimits) -> (progress: Self)
        requires
            limits.document_bytes < usize::MAX,
        ensures
            progress.collected() == Seq::<u8>::empty(),
            progress.bound() == limits.document_bytes + 1,
            !progress.has_ended(),
    {
        DocumentReadProgress {
            bytes: Vec::new(),
            maximum: limits.document_bytes + 1,
            ended: false,
        }
    }

    /// How many bytes the next read may ask for; zero when the read is over.
    pub fn request_length(&self) -> (length: usize)
        ensures
            length == if self.has_ended() {
                0
            } else if self.bound() - self.collected().len() < DOCUMENT_READ_BUFFER {
                self.bound() - self.collected().len()
            } else {
                DOCUMENT_READ_BUFFER as int
            },
    {
        proof {
            use_type_invariant(&*self);
        }
        if self.ended {
            return 0;
        }
        let remaining: usize = self.maximum - self.bytes.len();
        if remaining < DOCUMENT_READ_BUFFER {
            remaining
        } else {
            DOCUMENT_READ_BUFFER
        }
    }

    /// Takes in what one read returned. An empty read is the end of the file.
    pub fn accept(self, chunk: &[u8]) -> (next: Self)
        requires
            self.collected().len() + chunk@.len() <= self.bound(),
        ensures
            next.bound() == self.bound(),
            next.collected() == self.collected() + chunk@,
            next.has_ended() == (self.has_ended() || chunk@.len() == 0),
    {
        let mut bytes = self.bytes;
        let maximum: usize = self.maximum;
        let ended = self.ended || chunk.len() == 0;
        bytes.extend_from_slice(chunk);
        assert(bytes@ =~= self.bytes@ + chunk@);
        DocumentReadProgress { bytes, maximum, ended }
    }

    /// The collected bytes.
    pub fn into_bytes(self) -> (bytes: Vec<u8>)
        ensures
            bytes@ == self.collected(),
    {
        self.bytes
    }
}

/// A generation document as recovery sees it: a private file within the document limit.
pub open spec fn document_shape(lookup: Lookup, limits: StoreLimits) -> Result<
    CleanupRegularFileShape,
    DurableOpenError,
> {
    match seen(lookup) {
        Err(error) => Err(error),
        Ok(metadata) => bounded_shape(metadata, limits.document_bytes as int),
    }
}

/// A generation document as a cleanup sees it.
pub open spec fn cleanup_document_shape(lookup: Lookup, limits: StoreLimits) -> Result<
    CleanupRegularFileShape,
    DurableOpenError,
> {
    match seen_for_cleanup(lookup) {
        Err(error) => Err(error),
        Ok(metadata) => bounded_shape(metadata, limits.document_bytes as int),
    }
}

/// An unpublished conversation as recovery sees it: a private file within the conversation limit.
pub open spec fn conversation_shape(lookup: Lookup, limits: StoreLimits) -> Result<
    CleanupRegularFileShape,
    DurableOpenError,
> {
    match seen(lookup) {
        Err(error) => Err(error),
        Ok(metadata) => bounded_shape(metadata, limits.conversation_bytes as int),
    }
}

pub open spec fn bounded_shape(metadata: NodeMetadata, maximum: int) -> Result<
    CleanupRegularFileShape,
    DurableOpenError,
> {
    if !metadata.is_private_file() {
        Err(DurableOpenError::DurableStateCorrupt)
    } else if metadata.length > maximum {
        Err(DurableOpenError::DurableStateTooLarge)
    } else {
        Ok(regular_shape(metadata))
    }
}

fn validate_bounded_shape(metadata: &NodeMetadata, maximum: u64) -> (result: Result<
    CleanupRegularFileShape,
    DurableOpenError,
>)
    ensures
        result == bounded_shape(*metadata, maximum as int),
{
    match validate_existing_regular_file(metadata, DurableOpenError::DurableStateCorrupt) {
        Err(error) => return Err(error),
        Ok(()) => {},
    }
    if metadata.length > maximum {
        return Err(DurableOpenError::DurableStateTooLarge);
    }
    Ok(cleanup_regular_file_shape(metadata))
}

pub fn validate_generation_document_physical_shape(lookup: Lookup, limits: StoreLimits) -> (result:
    Result<CleanupRegularFileShape, DurableOpenError>)
    ensures
        result == document_shape(lookup, limits),
{
    match metadata_without_following(lookup) {
        Err(error) => Err(error),
        Ok(metadata) => validate_bounded_shape(&metadata, limits.document_bytes as u64),
    }
}

pub fn validate_unpublished_conversation_physical_shape(
    lookup: Lookup,
    limits: StoreLimits,
) -> (result: Result<CleanupRegularFileShape, DurableOpenError>)
    ensures
        result == conversation_shape(lookup, limits),
{
    match metadata_without_following(lookup) {
        Err(error) => Err(error),
        Ok(metadata) => validate_bounded_shape(&metadata, limits.conversation_bytes),
    }
}

pub fn validate_cleanup_generation_document(lookup: Lookup, limits: StoreLimits) -> (result: Result<
    CleanupRegularFileShape,
    DurableOpenError,
>)
    ensures
        result == cleanup_document_shape(lookup, limits),
{
    match cleanup_metadata_without_following(lookup) {
        Err(error) => Err(error),
        Ok(metadata) => validate_bounded_shape(&metadata, limits.document_bytes as u64),
    }
}

/// An empty private file as a cleanup sees it.
pub open spec fn cleanup_zero_shape(lookup: Lookup) -> Result<
    CleanupNodeIdentityShape,
    DurableOpenError,
> {
    match seen_for_cleanup(lookup) {
        Err(error) => Err(error),
        Ok(metadata) => if metadata.is_private_file() && metadata.length == 0 {
            Ok(metadata.identity)
        } else {
            Err(DurableOpenError::DurableStateCorrupt)
        },
    }
}

pub fn validate_cleanup_zero_regular_file(lookup: Lookup) -> (result: Result<
    CleanupNodeIdentityShape,
    DurableOpenError,
>)
    ensures
        result == cleanup_zero_shape(lookup),
{
    let metadata = match cleanup_metadata_without_following(lookup) {
        Ok(metadata) => metadata,
        Err(error) => return Err(error),
    };
    validate_existing_regular_file(&metadata, DurableOpenError::DurableStateCorrupt)?;
    if metadata.length != 0 {
        return Err(DurableOpenError::DurableStateCorrupt);
    }
    Ok(cleanup_node_identity_shape(&metadata))
}

pub open spec fn absence(lookup: Lookup) -> Result<(), DurableOpenError> {
    match lookup {
        Err(LookupError::NotFound) => Ok(()),
        Ok(_) => Err(DurableOpenError::DurableStateCorrupt),
        Err(LookupError::Unreadable) => Err(DurableOpenError::StorageUnavailable),
    }
}

pub fn validate_cleanup_absent(lookup: Lookup) -> (result: Result<(), DurableOpenError>)
    ensures
        result == absence(lookup),
{
    match lookup {
        Err(LookupError::NotFound) => Ok(()),
        Ok(_) => Err(DurableOpenError::DurableStateCorrupt),
        Err(LookupError::Unreadable) => Err(DurableOpenError::StorageUnavailable),
    }
}

/// Reconciles an ambiguous directory removal: only a confirmed absence counts as removed.
pub fn cleanup_candidate_is_absent_after_remove_dir_error(lookup: Lookup) -> (result: bool)
    ensures
        result == (lookup == Err::<NodeMetadata, LookupError>(LookupError::NotFound)),
{
    matches!(lookup, Err(LookupError::NotFound))
}

/// A regular entry, judged with the error that its caller reports for a wrong shape.
pub open spec fn regular_entry(lookup: Lookup, error: DurableOpenError) -> Result<
    (),
    DurableOpenError,
> {
    match seen(lookup) {
        Err(unavailable) => Err(unavailable),
        Ok(metadata) => checked(metadata.is_private_file(), error),
    }
}

/// A directory entry, judged with the error that its caller reports for a wrong shape.
pub open spec fn directory_entry(lookup: Lookup, error: DurableOpenError) -> Result<
    (),
    DurableOpenError,
> {
    match seen(lookup) {
        Err(unavailable) => Err(unavailable),
        Ok(metadata) => checked(metadata.is_private_directory(), error),
    }
}

pub fn validate_regular_entry_path(lookup: Lookup, error: DurableOpenError) -> (result: Result<
    (),
    DurableOpenError,
>)
    ensures
        result == regular_entry(lookup, error),
{
    match metadata_without_following(lookup) {
        Err(unavailable) => Err(unavailable),
        Ok(metadata) => validate_existing_regular_file(&metadata, error),
    }
}

pub fn validate_directory_entry(lookup: Lookup, error: DurableOpenError) -> (result: Result<
    (),
    DurableOpenError,
>)
    ensures
        result == directory_entry(lookup, error),
{
    match metadata_without_following(lookup) {
        Err(unavailable) => Err(unavailable),
        Ok(metadata) => validate_existing_directory(&metadata, error),
    }
}

/// An empty document observed as one open file reads exactly like an empty marker: both accept the
/// same files.
pub proof fn law_empty_document_is_an_empty_marker(
    file: OpenFileObservation,
    content: Vec<u8>,
    limits: StoreLimits,
)
    requires
        content@.len() == 0,
    ensures
        (DocumentObservation { file, content: Some(content) }).outcome(limits) is Ok <==> (
        ZeroFileObservation { file, read: Some(0usize) }).outcome() is Ok,
{
}

} // verus!
