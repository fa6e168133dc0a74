//! Bounded directory listings and the fixed names of a store.

use crate::open_error::DurableOpenError;
use crate::physical::{Lookup, LookupError};
use vstd::prelude::*;
use vstd::utf8;

verus! {

pub const LOCK_FILE: &'static str = ".minicore.lock";

pub const FORMAT_MARKER: &'static str = "MINICORE_STORE_V1";

pub const RESERVATIONS_DIRECTORY: &'static str = "reservations";

pub const AGENTS_DIRECTORY: &'static str = "agents";

pub const SESSIONS_DIRECTORY: &'static str = "sessions";

pub const PUBLISHED_FILE: &'static str = "PUBLISHED";

pub const GENERATIONS_DIRECTORY: &'static str = "generations";

pub const CONVERSATION_FILE: &'static str = "conversation.jsonl";

pub const HEAD_FILE: &'static str = "head.json";

pub const DEFINITION_FILE: &'static str = "definition.json";

pub const COMMITTED_FILE: &'static str = "COMMITTED";

pub const ROOT_ENTRY_CAP: usize = 5;

pub const RESERVATIONS_ENTRY_CAP: usize = 2;

pub const AGENT_RESERVATION_ENTRY_CAP: usize = 1_000_000;

pub const SESSION_RESERVATION_ENTRY_CAP: usize = 1_000_000;

pub const AGENT_ENTITY_ENTRY_CAP: usize = 2;

pub const SESSION_ENTITY_ENTRY_CAP: usize = 3;

pub const ROOT_AGENT_ENTRY_CAP: usize = 1_000_000;

pub const ROOT_SESSION_ENTRY_CAP: usize = 1_000_000;

pub const GENERATION_ENTRY_CAP: usize = 1_000_000;

pub const GENERATION_PAYLOAD_ENTRY_CAP: usize = 3;

/// What one walk over a directory showed.
pub struct DirectoryListing<T> {
    /// Whether the directory could be opened.
    pub opened: Result<(), LookupError>,
    /// The entries, in the order in which they came.
    pub entries: Vec<T>,
    /// Whether the walk broke off after these entries because an entry could not be read.
    pub interrupted: bool,
}

impl<T> DirectoryListing<T> {
    /// The entries, if the walk reached its end within `maximum` entries.
    pub open spec fn bounded(self, maximum: usize) -> Result<Seq<T>, DurableOpenError> {
        if self.opened is Err {
            Err(DurableOpenError::StorageUnavailable)
        } else {
            self.collected(maximum)
        }
    }

    /// The same for a directory that must still be there.
    pub open spec fn bounded_for_cleanup(self, maximum: usize) -> Result<Seq<T>, DurableOpenError> {
        if self.opened == Err::<(), LookupError>(LookupError::NotFound) {
            Err(DurableOpenError::DurableStateCorrupt)
        } else {
            self.bounded(maximum)
        }
    }

    pub open spec fn collected(self, maximum: usize) -> Result<Seq<T>, DurableOpenError> {
        if self.entries@.len() > maximum {
            Err(DurableOpenError::DurableStateTooLarge)
        } else if self.interrupted {
            Err(DurableOpenError::StorageUnavailable)
        } else {
            Ok(self.entries@)
        }
    }
}

/// A result over a borrowed list, compared with a model over a sequence.
pub open spec fn same_entries<T>(
    result: Result<&Vec<T>, DurableOpenError>,
    model: Result<Seq<T>, DurableOpenError>,
) -> bool {
    match result {
        Ok(entries) => model == Ok::<Seq<T>, DurableOpenError>(entries@),
        Err(error) => model == Err::<Seq<T>, DurableOpenError>(error),
    }
}

pub fn read_entries_bounded<T>(listing: &DirectoryListing<T>, maximum: usize) -> (result: Result<
    &Vec<T>,
    DurableOpenError,
>)
    ensures
        same_entries(result, listing.bounded(maximum)),
{
    match listing.opened {
        Ok(()) => {},
        Err(_) => return Err(DurableOpenError::StorageUnavailable),
    }
    if listing.entries.len() > maximum {
        return Err(DurableOpenError::DurableStateTooLarge);
    }
    if listing.interrupted {
        return Err(DurableOpenError::StorageUnavailable);
    }
    Ok(&listing.entries)
}

pub fn read_cleanup_entries_bounded<T>(listing: &DirectoryListing<T>, maximum: usize) -> (result:
    Result<&Vec<T>, DurableOpenError>)
    ensures
        same_entries(result, listing.bounded_for_cleanup(maximum)),
{
    match listing.opened {
        Err(LookupError::NotFound) => return Err(DurableOpenError::DurableStateCorrupt),
        _ => {},
    }
    read_entries_bounded(listing, maximum)
}

/// Whether the first step of a walk shows an empty directory.
pub open spec fn emptiness<T>(listing: DirectoryListing<T>) -> Result<bool, DurableOpenError> {
    if listing.opened is Err {
        Err(DurableOpenError::StorageUnavailable)
    } else if listing.entries@.len() > 0 {
        Ok(false)
    } else if listing.interrupted {
        Err(DurableOpenError::StorageUnavailable)
    } else {
        Ok(true)
    }
}

pub fn directory_is_empty<T>(listing: &DirectoryListing<T>) -> (result: Result<
    bool,
    DurableOpenError,
>)
    ensures
        result == emptiness(*listing),
{
    match listing.opened {
        Ok(()) => {},
        Err(_) => return Err(DurableOpenError::StorageUnavailable),
    }
    if listing.entries.len() > 0 {
        return Ok(false);
    }
    if listing.interrupted {
        return Err(DurableOpenError::StorageUnavailable);
    }
    Ok(true)
}

/// The raw bytes of a fixed name.
pub open spec fn name_bytes(name: &str) -> Seq<u8> {
    utf8::encode_utf8(name@)
}

pub fn entry_has_name(entry: &[u8], name: &str) -> (result: bool)
    ensures
        result == (entry@ == name_bytes(name)),
{
    let bytes = name.as_bytes();
    if entry.len() != bytes.len() {
        return false;
    }
    let mut i: usize = 0;
    while i < entry.len()
        invariant
            i <= entry@.len(),
            entry@.len() == bytes@.len(),
            bytes@ == name_bytes(name),
            forall|k: int| 0 <= k < i ==> entry@[k] == bytes@[k],
        decreases entry.len() - i,
    {
        if entry[i] != bytes[i] {
            return false;
        }
        i = i + 1;
    }
    assert(entry@ =~= bytes@);
    true
}

pub fn same_name(a: &[u8], b: &[u8]) -> (result: bool)
    ensures
        result == (a@ == b@),
{
    if a.len() != b.len() {
        return false;
    }
    let mut i: usize = 0;
    while i < a.len()
        invariant
            i <= a@.len(),
            a@.len() == b@.len(),
            forall|k: int| 0 <= k < i ==> a@[k] == b@[k],
        decreases a.len() - i,
    {
        if a[i] != b[i] {
            return false;
        }
        i = i + 1;
    }
    assert(a@ =~= b@);
    true
}

/// Whether a name is one of three fixed names.
pub open spec fn is_one_of(name: Seq<u8>, first: &str, second: &str, third: &str) -> bool {
    name == name_bytes(first) || name == name_bytes(second) || name == name_bytes(third)
}

/// Whether a directory holds something beside three fixed names, each at most once.
pub open spec fn unknown_child(
    names: Seq<Vec<u8>>,
    first: &str,
    second: &str,
    third: &str,
) -> bool {
    ||| exists|i: int|
        0 <= i < names.len() && !is_one_of((#[trigger] names[i])@, first, second, third)
    ||| exists|i: int, j: int|
        0 <= i < j < names.len() && (#[trigger] names[i])@ == (#[trigger] names[j])@
}

pub fn has_unknown_child(names: &Vec<Vec<u8>>, first: &str, second: &str, third: &str) -> (result:
    bool)
    ensures
        result == unknown_child(names@, first, second, third),
{
    let mut i: usize = 0;
    while i < names.len()
        invariant
            i <= names@.len(),
            forall|k: int|
                0 <= k < i ==> is_one_of((#[trigger] names@[k])@, first, second, third),
            forall|k: int, m: int|
                0 <= k < m < i ==> (#[trigger] names@[k])@ != (#[trigger] names@[m])@,
        decreases names.len() - i,
    {
        let name = names[i].as_slice();
        if !entry_has_name(name, first) && !entry_has_name(name, second) && !entry_has_name(
            name,
            third,
        ) {
            assert(!is_one_of(names@[i as int]@, first, second, third));
            return true;
        }
        let mut j: usize = 0;
        while j < i
            invariant
                j <= i < names@.len(),
                name@ == names@[i as int]@,
                forall|k: int| 0 <= k < j ==> (#[trigger] names@[k])@ != name@,
            decreases i - j,
        {
            if same_name(names[j].as_slice(), name) {
                assert(names@[j as int]@ == names@[i as int]@);
                return true;
            }
            j = j + 1;
        }
        i = i + 1;
    }
    false
}

/// Whether some entry carries a name.
pub open spec fn has_name(names: Seq<Vec<u8>>, name: &str) -> bool {
    exists|i: int| 0 <= i < names.len() && (#[trigger] names[i])@ == name_bytes(name)
}

pub fn contains_named_entry(names: &Vec<Vec<u8>>, name: &str) -> (result: bool)
    ensures
        result == has_name(names@, name),
{
    let mut i: usize = 0;
    while i < names.len()
        invariant
            i <= names@.len(),
            forall|k: int| 0 <= k < i ==> (#[trigger] names@[k])@ != name_bytes(name),
        decreases names.len() - i,
    {
        if entry_has_name(names[i].as_slice(), name) {
            return true;
        }
        i = i + 1;
    }
    false
}

/// The byte order of names.
pub open spec fn name_before(a: Seq<u8>, b: Seq<u8>) -> bool
    decreases a.len(),
{
    if b.len() == 0 {
        false
    } else if a.len() == 0 {
        true
    } else if a[0] != b[0] {
        a[0] < b[0]
    } else {
        name_before(a.skip(1), b.skip(1))
    }
}

fn precedes_from(a: &[u8], b: &[u8], from: usize) -> (result: bool)
    requires
        from <= a@.len(),
        from <= b@.len(),
    ensures
        result == name_before(a@.skip(from as int), b@.skip(from as int)),
    decreases a@.len() - from,
{
    if from == b.len() {
        return false;
    }
    if from == a.len() {
        return true;
    }
    assert(a@.skip(from as int)[0] == a@[from as int]);
    assert(b@.skip(from as int)[0] == b@[from as int]);
    if a[from] != b[from] {
        return a[from] < b[from];
    }
    assert(a@.skip(from as int).skip(1) =~= a@.skip(from + 1));
    assert(b@.skip(from as int).skip(1) =~= b@.skip(from + 1));
    precedes_from(a, b, from + 1)
}

/// Whether one name comes before another in byte order.
pub fn name_precedes(a: &[u8], b: &[u8]) -> (result: bool)
    ensures
        result == name_before(a@, b@),
{
    assert(a@.skip(0) =~= a@);
    assert(b@.skip(0) =~= b@);
    precedes_from(a, b, 0)
}

/// A directory entry as a cleanup revalidates it.
pub struct CleanupEntry {
    pub name: Vec<u8>,
    /// The node, looked up once and then once more.
    pub metadata: Lookup,
    pub reread: Lookup,
}

/// Inserts behind every entry that does not come after it in byte order.
pub open spec fn insert_by_name(sorted: Seq<CleanupEntry>, entry: CleanupEntry) -> Seq<CleanupEntry>
    decreases sorted.len(),
{
    if sorted.len() == 0 || !name_before(entry.name@, sorted.last().name@) {
        sorted.push(entry)
    } else {
        insert_by_name(sorted.drop_last(), entry).push(sorted.last())
    }
}

/// The entries in byte order of their names.
pub open spec fn sorted_by_name(entries: Seq<CleanupEntry>) -> Seq<CleanupEntry>
    decreases entries.len(),
{
    if entries.len() == 0 {
        seq![]
    } else {
        insert_by_name(sorted_by_name(entries.drop_last()), entries.last())
    }
}

/// The entries behind a list of references.
pub open spec fn referenced(entries: Seq<&CleanupEntry>) -> Seq<CleanupEntry> {
    entries.map_values(|entry: &CleanupEntry| *entry)
}

proof fn lemma_insert_splits(sorted: Seq<CleanupEntry>, entry: CleanupEntry, at: int)
    requires
        0 <= at <= sorted.len(),
        forall|k: int|
            at <= k < sorted.len() ==> name_before(entry.name@, (#[trigger] sorted[k]).name@),
        at == 0 || !name_before(entry.name@, sorted[at - 1].name@),
    ensures
        insert_by_name(sorted, entry) == sorted.insert(at, entry),
    decreases sorted.len(),
{
    if at == sorted.len() {
        assert(insert_by_name(sorted, entry) =~= sorted.insert(at, entry));
    } else {
        let front = sorted.drop_last();
        lemma_insert_splits(front, entry, at);
        assert(insert_by_name(sorted, entry) =~= sorted.insert(at, entry));
    }
}

/// Sorts a short list of entries by name.
pub fn sort_entries_by_name(entries: &Vec<CleanupEntry>) -> (sorted: Vec<&CleanupEntry>)
    ensures
        referenced(sorted@) == sorted_by_name(entries@),
        sorted@.len() == entries@.len(),
{
    let mut sorted: Vec<&CleanupEntry> = Vec::new();
    let mut i: usize = 0;
    proof {
        assert(entries@.take(0) =~= seq![]);
        assert(referenced(sorted@) =~= seq![]);
    }
    while i < entries.len()
        invariant
            i <= entries@.len(),
            referenced(sorted@) == sorted_by_name(entries@.take(i as int)),
            sorted@.len() == i,
        decreases entries.len() - i,
    {
        let entry: &CleanupEntry = &entries[i];
        let mut at: usize = sorted.len();
        while at > 0 && name_precedes(entry.name.as_slice(), sorted[at - 1].name.as_slice())
            invariant
                at <= sorted@.len(),
                forall|k: int|
                    at <= k < sorted@.len() ==> name_before(
                        entry.name@,
                        (#[trigger] referenced(sorted@)[k]).name@,
                    ),
            decreases at,
        {
            at = at - 1;
        }
        proof {
            lemma_insert_splits(referenced(sorted@), *entry, at as int);
            assert(entries@.take(i + 1).drop_last() =~= entries@.take(i as int));
            assert(referenced(sorted@.insert(at as int, entry)) =~= referenced(sorted@).insert(
                at as int,
                *entry,
            ));
        }
        sorted.insert(at, entry);
        i = i + 1;
    }
    assert(entries@.take(entries@.len() as int) =~= entries@);
    sorted
}

proof fn lemma_insert_contains(sorted: Seq<CleanupEntry>, entry: CleanupEntry, x: CleanupEntry)
    ensures
        insert_by_name(sorted, entry).contains(x) <==> (sorted.contains(x) || x == entry),
        insert_by_name(sorted, entry).len() == sorted.len() + 1,
    decreases sorted.len(),
{
    if sorted.len() == 0 || !name_before(entry.name@, sorted.last().name@) {
        let pushed = sorted.push(entry);
        assert(pushed.last() == entry);
        if sorted.contains(x) {
            let k = choose|k: int| 0 <= k < sorted.len() && sorted[k] == x;
            assert(pushed[k] == x);
        }
    } else {
        let front = sorted.drop_last();
        lemma_insert_contains(front, entry, x);
        let inner = insert_by_name(front, entry);
        let pushed = inner.push(sorted.last());
        assert(pushed.last() == sorted.last());
        if inner.contains(x) {
            let k = choose|k: int| 0 <= k < inner.len() && inner[k] == x;
            assert(pushed[k] == x);
        }
        if sorted.contains(x) {
            let k = choose|k: int| 0 <= k < sorted.len() && sorted[k] == x;
            if k < front.len() {
                assert(front[k] == x);
            }
        }
        if front.contains(x) {
            let k = choose|k: int| 0 <= k < front.len() && front[k] == x;
            assert(sorted[k] == x);
        }
        assert(sorted.contains(sorted.last()));
        if pushed.contains(x) {
            let k = choose|k: int| 0 <= k < pushed.len() && pushed[k] == x;
            if k < inner.len() {
                assert(inner[k] == x);
            }
        }
    }
}

/// Sorting neither drops nor adds an entry.
pub proof fn lemma_sorted_contains(entries: Seq<CleanupEntry>, x: CleanupEntry)
    ensures
        sorted_by_name(entries).contains(x) <==> entries.contains(x),
        sorted_by_name(entries).len() == entries.len(),
    decreases entries.len(),
{
    if entries.len() > 0 {
        let front = entries.drop_last();
        lemma_sorted_contains(front, x);
        lemma_insert_contains(sorted_by_name(front), entries.last(), x);
        assert(entries =~= front.push(entries.last()));
        assert(entries.contains(entries.last()));
        if entries.contains(x) {
            let k = choose|k: int| 0 <= k < entries.len() && entries[k] == x;
            if k < front.len() {
                assert(front[k] == x);
            }
        }
        if front.contains(x) {
            let k = choose|k: int| 0 <= k < front.len() && front[k] == x;
            assert(entries[k] == x);
        }
    }
}

proof fn lemma_not_before_itself(a: Seq<u8>)
    ensures
        !name_before(a, a),
    decreases a.len(),
{
    if a.len() > 0 {
        lemma_not_before_itself(a.skip(1));
    }
}

/// Names are ordered byte by byte, a name before every longer one that starts with it: no name comes
/// before itself, of two names exactly one comes first, and the order carries on.
pub proof fn law_names_are_ordered(a: Seq<u8>, b: Seq<u8>, c: Seq<u8>)
    ensures
        !name_before(a, a),
        a != b ==> name_before(a, b) != name_before(b, a),
        name_before(a, b) && name_before(b, c) ==> name_before(a, c),
        a.len() < b.len() && b.take(a.len() as int) == a ==> name_before(a, b),
    decreases a.len() + b.len() + c.len(),
{
    lemma_not_before_itself(a);
    if a.len() > 0 && b.len() > 0 && a[0] == b[0] {
        let (x, y) = (a.skip(1), b.skip(1));
        if c.len() > 0 && b[0] == c[0] {
            law_names_are_ordered(x, y, c.skip(1));
        } else {
            law_names_are_ordered(x, y, Seq::empty());
        }
        if x == y {
            assert(a =~= seq![a[0]] + x);
            assert(b =~= seq![b[0]] + y);
        }
        if a.len() < b.len() && b.take(a.len() as int) == a {
            assert(y.take(x.len() as int) =~= x) by {
                assert forall|i: int| 0 <= i < x.len() implies y[i] == x[i] by {
                    assert(b.take(a.len() as int)[i + 1] == a[i + 1]);
                }
            }
        }
    } else if a.len() == 0 && b.len() == 0 {
        assert(a =~= b);
    } else if a.len() > 0 && b.len() > 0 {
        if a.len() < b.len() && b.take(a.len() as int) == a {
            assert(b.take(a.len() as int)[0] == a[0]);
        }
    }
}

/// Whether no entry comes before one that stands in front of it.
pub open spec fn is_sorted(entries: Seq<CleanupEntry>) -> bool {
    forall|i: int, j: int|
        0 <= i < j < entries.len() ==> !name_before(
            (#[trigger] entries[j]).name@,
            (#[trigger] entries[i]).name@,
        )
}

proof fn lemma_insert_sorts(sorted: Seq<CleanupEntry>, entry: CleanupEntry)
    requires
        is_sorted(sorted),
    ensures
        is_sorted(insert_by_name(sorted, entry)),
    decreases sorted.len(),
{
    let inserted = insert_by_name(sorted, entry);
    if sorted.len() > 0 {
        let last = sorted.last();
        let front = sorted.drop_last();
        assert(sorted[sorted.len() - 1] == last);
        assert forall|i: int, j: int| 0 <= i < j < front.len() implies !name_before(
            (#[trigger] front[j]).name@,
            (#[trigger] front[i]).name@,
        ) by {
            assert(front[j] == sorted[j] && front[i] == sorted[i]);
        }
        if !name_before(entry.name@, last.name@) {
            assert forall|i: int, j: int| 0 <= i < j < inserted.len() implies !name_before(
                (#[trigger] inserted[j]).name@,
                (#[trigger] inserted[i]).name@,
            ) by {
                if j == sorted.len() {
                    assert(inserted[i] == sorted[i]);
                    law_names_are_ordered(entry.name@, sorted[i].name@, last.name@);
                    law_names_are_ordered(sorted[i].name@, last.name@, last.name@);
                    if i < sorted.len() - 1 {
                        assert(!name_before(sorted[sorted.len() - 1].name@, sorted[i].name@));
                    }
                } else {
                    assert(inserted[j] == sorted[j] && inserted[i] == sorted[i]);
                }
            }
        } else {
            let inner = insert_by_name(front, entry);
            lemma_insert_sorts(front, entry);
            law_names_are_ordered(entry.name@, last.name@, last.name@);
            assert forall|i: int, j: int| 0 <= i < j < inserted.len() implies !name_before(
                (#[trigger] inserted[j]).name@,
                (#[trigger] inserted[i]).name@,
            ) by {
                if j == inner.len() {
                    assert(inserted[i] == inner[i]);
                    assert(inner.contains(inner[i]));
                    lemma_insert_contains(front, entry, inner[i]);
                    if inner[i] != entry {
                        let k = choose|k: int| 0 <= k < front.len() && front[k] == inner[i];
                        assert(sorted[k] == inner[i]);
                        assert(!name_before(sorted[sorted.len() - 1].name@, sorted[k].name@));
                    }
                } else {
                    assert(inserted[j] == inner[j] && inserted[i] == inner[i]);
                }
            }
        }
    }
}

/// The entries of a directory are looked at in the order of their names.
pub proof fn law_entries_are_sorted_by_name(entries: Seq<CleanupEntry>)
    ensures
        is_sorted(sorted_by_name(entries)),
    decreases entries.len(),
{
    if entries.len() > 0 {
        law_entries_are_sorted_by_name(entries.drop_last());
        lemma_insert_sorts(sorted_by_name(entries.drop_last()), entries.last());
    }
}

} // verus!
