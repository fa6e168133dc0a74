//! The places of a store, named without a root path.

use crate::digits;
use crate::entity_scan::EntityKind;
use crate::generation;
use crate::generation::StorageGeneration;
use crate::ids;
use crate::ids::format_identity;
use crate::listing::{
    AGENTS_DIRECTORY, COMMITTED_FILE, CONVERSATION_FILE, DEFINITION_FILE, FORMAT_MARKER,
    GENERATIONS_DIRECTORY, HEAD_FILE, LOCK_FILE, PUBLISHED_FILE, RESERVATIONS_DIRECTORY,
    SESSIONS_DIRECTORY,
};
use vstd::prelude::*;

verus! {

/// One Agent or Session.
#[derive(Clone, Copy, PartialEq, Eq, Structural)]
pub struct EntityKey {
    pub kind: EntityKind,
    pub id: u128,
}

/// One place of a store.
#[derive(Clone, Copy, PartialEq, Eq, Structural)]
pub enum StoreLocation {
    Root,
    LockFile,
    FormatMarker,
    Reservations,
    ReservationCollection(EntityKind),
    Reservation(EntityKey),
    EntityCollection(EntityKind),
    Entity(EntityKey),
    Published(EntityKey),
    Generations(EntityKey),
    Conversation(EntityKey),
    Generation(EntityKey, StorageGeneration),
    Head(EntityKey, StorageGeneration),
    Definition(EntityKey, StorageGeneration),
    Committed(EntityKey, StorageGeneration),
}

impl EntityKey {
    /// The canonical name of the entity.
    pub open spec fn spec_name(self) -> Seq<char> {
        match self.kind {
            EntityKind::Agent => digits::ascii_text(ids::agent_name(self.id)),
            EntityKind::Session => digits::ascii_text(ids::session_name(self.id)),
        }
    }

    pub fn name(self) -> (name: String)
        ensures
            name@ == self.spec_name(),
    {
        match self.kind {
            EntityKind::Agent => {
                proof {
                    reveal_strlit("agt_");
                    ids::lemma_identity_text("agt_"@, ids::agent_prefix(), self.id);
                }
                format_identity("agt_", self.id)
            },
            EntityKind::Session => {
                proof {
                    reveal_strlit("ses_");
                    ids::lemma_identity_text("ses_"@, ids::session_prefix(), self.id);
                }
                format_identity("ses_", self.id)
            },
        }
    }
}

impl EntityKind {
    pub open spec fn spec_collection_name(self) -> Seq<char> {
        match self {
            EntityKind::Agent => AGENTS_DIRECTORY@,
            EntityKind::Session => SESSIONS_DIRECTORY@,
        }
    }

    /// The name of the directories that hold entities of this kind.
    pub fn collection_name(self) -> (name: &'static str)
        ensures
            name@ == self.spec_collection_name(),
    {
        match self {
            EntityKind::Agent => AGENTS_DIRECTORY,
            EntityKind::Session => SESSIONS_DIRECTORY,
        }
    }
}

impl StoreLocation {
    /// How many names lead from the root to this place.
    pub open spec fn depth(self) -> nat {
        match self {
            StoreLocation::Root => 0,
            StoreLocation::LockFile => 1,
            StoreLocation::FormatMarker => 1,
            StoreLocation::Reservations => 1,
            StoreLocation::EntityCollection(_) => 1,
            StoreLocation::ReservationCollection(_) => 2,
            StoreLocation::Entity(_) => 2,
            StoreLocation::Reservation(_) => 3,
            StoreLocation::Published(_) => 3,
            StoreLocation::Generations(_) => 3,
            StoreLocation::Conversation(_) => 3,
            StoreLocation::Generation(_, _) => 4,
            StoreLocation::Head(_, _) => 5,
            StoreLocation::Definition(_, _) => 5,
            StoreLocation::Committed(_, _) => 5,
        }
    }

    /// The directory that holds this place; the root holds itself.
    pub open spec fn spec_parent(self) -> StoreLocation {
        match self {
            StoreLocation::Root => StoreLocation::Root,
            StoreLocation::LockFile => StoreLocation::Root,
            StoreLocation::FormatMarker => StoreLocation::Root,
            StoreLocation::Reservations => StoreLocation::Root,
            StoreLocation::EntityCollection(_) => StoreLocation::Root,
            StoreLocation::ReservationCollection(_) => StoreLocation::Reservations,
            StoreLocation::Reservation(key) => StoreLocation::ReservationCollection(key.kind),
            StoreLocation::Entity(key) => StoreLocation::EntityCollection(key.kind),
            StoreLocation::Published(key) => StoreLocation::Entity(key),
            StoreLocation::Generations(key) => StoreLocation::Entity(key),
            StoreLocation::Conversation(key) => StoreLocation::Entity(key),
            StoreLocation::Generation(key, _) => StoreLocation::Generations(key),
            StoreLocation::Head(key, generation) => StoreLocation::Generation(key, generation),
            StoreLocation::Definition(key, generation) => StoreLocation::Generation(
                key,
                generation,
            ),
            StoreLocation::Committed(key, generation) => StoreLocation::Generation(
                key,
                generation,
            ),
        }
    }

    /// The name of this place in the directory that holds it.
    pub open spec fn spec_own_name(self) -> Seq<char> {
        match self {
            StoreLocation::Root => seq![],
            StoreLocation::LockFile => LOCK_FILE@,
            StoreLocation::FormatMarker => FORMAT_MARKER@,
            StoreLocation::Reservations => RESERVATIONS_DIRECTORY@,
            StoreLocation::EntityCollection(kind) => kind.spec_collection_name(),
            StoreLocation::ReservationCollection(kind) => kind.spec_collection_name(),
            StoreLocation::Reservation(key) => key.spec_name(),
            StoreLocation::Entity(key) => key.spec_name(),
            StoreLocation::Published(_) => PUBLISHED_FILE@,
            StoreLocation::Generations(_) => GENERATIONS_DIRECTORY@,
            StoreLocation::Conversation(_) => CONVERSATION_FILE@,
            StoreLocation::Generation(_, generation) => digits::ascii_text(
                generation::generation_name(generation@),
            ),
            StoreLocation::Head(_, _) => HEAD_FILE@,
            StoreLocation::Definition(_, _) => DEFINITION_FILE@,
            StoreLocation::Committed(_, _) => COMMITTED_FILE@,
        }
    }

    /// The names that lead from the root to this place.
    pub open spec fn spec_components(self) -> Seq<Seq<char>>
        decreases self.depth(),
    {
        if self is Root {
            seq![]
        } else {
            self.spec_parent().spec_components().push(self.spec_own_name())
        }
    }

    /// The directory that holds this place; the root holds itself.
    pub fn parent(self) -> (parent: StoreLocation)
        ensures
            parent == self.spec_parent(),
    {
        match self {
            StoreLocation::Root => StoreLocation::Root,
            StoreLocation::LockFile => StoreLocation::Root,
            StoreLocation::FormatMarker => StoreLocation::Root,
            StoreLocation::Reservations => StoreLocation::Root,
            StoreLocation::EntityCollection(_) => StoreLocation::Root,
            StoreLocation::ReservationCollection(_) => StoreLocation::Reservations,
            StoreLocation::Reservation(key) => StoreLocation::ReservationCollection(key.kind),
            StoreLocation::Entity(key) => StoreLocation::EntityCollection(key.kind),
            StoreLocation::Published(key) => StoreLocation::Entity(key),
            StoreLocation::Generations(key) => StoreLocation::Entity(key),
            StoreLocation::Conversation(key) => StoreLocation::Entity(key),
            StoreLocation::Generation(key, _) => StoreLocation::Generations(key),
            StoreLocation::Head(key, generation) => StoreLocation::Generation(key, generation),
            StoreLocation::Definition(key, generation) => StoreLocation::Generation(
                key,
                generation,
            ),
            StoreLocation::Committed(key, generation) => StoreLocation::Generation(
                key,
                generation,
            ),
        }
    }

    /// The name of this place in the directory that holds it.
    pub fn own_name(self) -> (name: String)
        ensures
            name@ == self.spec_own_name(),
    {
        match self {
            StoreLocation::Root => String::new(),
            StoreLocation::LockFile => LOCK_FILE.to_string(),
            StoreLocation::FormatMarker => FORMAT_MARKER.to_string(),
            StoreLocation::Reservations => RESERVATIONS_DIRECTORY.to_string(),
            StoreLocation::EntityCollection(kind) => kind.collection_name().to_string(),
            StoreLocation::ReservationCollection(kind) => kind.collection_name().to_string(),
            StoreLocation::Reservation(key) => key.name(),
            StoreLocation::Entity(key) => key.name(),
            StoreLocation::Published(_) => PUBLISHED_FILE.to_string(),
            StoreLocation::Generations(_) => GENERATIONS_DIRECTORY.to_string(),
            StoreLocation::Conversation(_) => CONVERSATION_FILE.to_string(),
            StoreLocation::Generation(_, generation) => generation.directory_name(),
            StoreLocation::Head(_, _) => HEAD_FILE.to_string(),
            StoreLocation::Definition(_, _) => DEFINITION_FILE.to_string(),
            StoreLocation::Committed(_, _) => COMMITTED_FILE.to_string(),
        }
    }

    /// The names that lead from the root to this place.
    pub fn components(self) -> (names: Vec<String>)
        ensures
            texts(names@) == self.spec_components(),
        decreases self.depth(),
    {
        if matches!(self, StoreLocation::Root) {
            let names: Vec<String> = Vec::new();
            assert(texts(names@) =~= seq![]);
            return names;
        }
        let mut names = self.parent().components();
        let ghost before = names@;
        names.push(self.own_name());
        assert(texts(names@) =~= texts(before).push(self.spec_own_name()));
        names
    }
}

pub open spec fn texts(names: Seq<String>) -> Seq<Seq<char>> {
    names.map_values(|name: String| name@)
}

proof fn lemma_ascii_text_injective(a: Seq<u8>, b: Seq<u8>)
    requires
        digits::ascii_text(a) == digits::ascii_text(b),
    ensures
        a == b,
{
    let left = digits::ascii_text(a);
    let right = digits::ascii_text(b);
    assert(a.len() == left.len());
    assert(b.len() == right.len());
    assert forall|i: int| 0 <= i < a.len() implies a[i] == b[i] by {
        assert(left[i] == a[i] as char);
        assert(right[i] == b[i] as char);
    }
    assert(a =~= b);
}

proof fn lemma_entity_name_injective(a: EntityKey, b: EntityKey)
    requires
        a.kind == b.kind,
        a.spec_name() == b.spec_name(),
    ensures
        a == b,
{
    match a.kind {
        EntityKind::Agent => {
            lemma_ascii_text_injective(ids::agent_name(a.id), ids::agent_name(b.id));
        },
        EntityKind::Session => {
            lemma_ascii_text_injective(ids::session_name(a.id), ids::session_name(b.id));
        },
    }
    ids::law_identity_names_are_exact(a.id, b.id);
}

proof fn lemma_components_length(location: StoreLocation)
    ensures
        location.spec_components().len() == location.depth(),
    decreases location.depth(),
{
    if location !is Root {
        lemma_components_length(location.spec_parent());
    }
}

proof fn lemma_siblings_differ(a: StoreLocation, b: StoreLocation)
    requires
        a !is Root,
        b !is Root,
        a.spec_parent() == b.spec_parent(),
        a.spec_own_name() == b.spec_own_name(),
        a.is_valid(),
        b.is_valid(),
    ensures
        a == b,
{
    reveal_strlit(".minicore.lock");
    reveal_strlit("MINICORE_STORE_V1");
    reveal_strlit("reservations");
    reveal_strlit("agents");
    reveal_strlit("sessions");
    reveal_strlit("PUBLISHED");
    reveal_strlit("generations");
    reveal_strlit("conversation.jsonl");
    reveal_strlit("head.json");
    reveal_strlit("definition.json");
    reveal_strlit("COMMITTED");
    assert(LOCK_FILE@.len() == 14);
    assert(FORMAT_MARKER@.len() == 17);
    assert(RESERVATIONS_DIRECTORY@.len() == 12);
    assert(AGENTS_DIRECTORY@.len() == 6);
    assert(SESSIONS_DIRECTORY@.len() == 8);
    assert(PUBLISHED_FILE@.len() == 9);
    assert(GENERATIONS_DIRECTORY@.len() == 11);
    assert(CONVERSATION_FILE@.len() == 18);
    assert(DEFINITION_FILE@.len() == 15);
    assert(HEAD_FILE@.len() == 9 && HEAD_FILE@[0] == 'h');
    assert(COMMITTED_FILE@.len() == 9 && COMMITTED_FILE@[0] == 'C');
    match (a, b) {
        (StoreLocation::Reservation(x), StoreLocation::Reservation(y)) => {
            lemma_entity_name_injective(x, y);
        },
        (StoreLocation::Entity(x), StoreLocation::Entity(y)) => {
            lemma_entity_name_injective(x, y);
        },
        (StoreLocation::Generation(_, x), StoreLocation::Generation(_, y)) => {
            lemma_ascii_text_injective(
                generation::generation_name(x@),
                generation::generation_name(y@),
            );
            generation::law_generation_name_round_trip(x@, y@);
            StorageGeneration::lemma_view_injective(x, y);
        },
        _ => {},
    }
}

impl StoreLocation {
    /// Generations are numbered from one up to the highest ordinal.
    pub open spec fn is_valid(self) -> bool {
        match self {
            StoreLocation::Generation(_, generation) => 1 <= generation@
                <= generation::MAXIMUM_GENERATION,
            StoreLocation::Head(_, generation) => 1 <= generation@
                <= generation::MAXIMUM_GENERATION,
            StoreLocation::Definition(_, generation) => 1 <= generation@
                <= generation::MAXIMUM_GENERATION,
            StoreLocation::Committed(_, generation) => 1 <= generation@
                <= generation::MAXIMUM_GENERATION,
            _ => true,
        }
    }
}

/// No two places of a store share a path.
pub proof fn law_paths_are_distinct(a: StoreLocation, b: StoreLocation)
    requires
        a.is_valid(),
        b.is_valid(),
    ensures
        a.spec_components() == b.spec_components() <==> a == b,
    decreases a.depth(),
{
    lemma_components_length(a);
    lemma_components_length(b);
    if a.spec_components() == b.spec_components() && a !is Root {
        let left = a.spec_parent().spec_components();
        let right = b.spec_parent().spec_components();
        assert(a.spec_components().drop_last() =~= left);
        assert(b.spec_components().drop_last() =~= right);
        assert(a.spec_components().last() == a.spec_own_name());
        assert(b.spec_components().last() == b.spec_own_name());
        law_paths_are_distinct(a.spec_parent(), b.spec_parent());
        lemma_siblings_differ(a, b);
    }
}

} // verus!
