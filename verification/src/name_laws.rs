//! How names and paths are spelled, letter by letter.

use crate::digits;
use crate::entity_scan::EntityKind;
use crate::generation;
use crate::generation::StorageGeneration;
use crate::ids;
use crate::location::{EntityKey, StoreLocation};
use vstd::arithmetic::power::pow;
use vstd::prelude::*;

verus! {

/// The letter of a digit.
pub open spec fn letter(digit: int) -> int {
    if digit < 10 {
        0x30 + digit
    } else {
        0x61 + (digit - 10)
    }
}

proof fn lemma_digit_at(value: nat, base: nat, width: nat, place: nat)
    requires
        2 <= base <= 16,
        place < width,
    ensures
        digits::digits(value, base, width).len() == width,
        digits::digits(value, base, width)[width - 1 - place] == (value as int / pow(
            base as int,
            place,
        )) % base as int,
    decreases width,
{
    digits::lemma_digits_shape(value, base, width);
    vstd::arithmetic::power::lemma_pow0(base as int);
    if place > 0 {
        let below = (place - 1) as nat;
        lemma_digit_at(value / base, base, (width - 1) as nat, below);
        vstd::arithmetic::power::lemma_pow_positive(base as int, below);
        vstd::arithmetic::div_mod::lemma_div_denominator(
            value as int,
            base as int,
            pow(base as int, below),
        );
        assert(pow(base as int, place) == base * pow(base as int, below)) by {
            reveal(pow);
        }
    }
}

/// A numeral of a fixed width, letter by letter.
proof fn lemma_letter_at(value: nat, base: nat, width: nat, place: nat)
    requires
        2 <= base <= 16,
        place < width,
    ensures
        digits::numeral(digits::digits(value, base, width)).len() == width,
        digits::numeral(digits::digits(value, base, width))[width - 1 - place] == letter(
            (value as int / pow(base as int, place)) % base as int,
        ),
{
    lemma_digit_at(value, base, width, place);
    digits::lemma_digits_shape(value, base, width);
    let digit = digits::digits(value, base, width)[width - 1 - place];
    assert(digit < base);
}

/// A generation is named by its number in twenty decimal digits, and read from exactly that name; only
/// the numbers from one to a million name generations.
pub proof fn law_generation_names_are_spelled(value: nat, place: nat, name: Seq<u8>)
    requires
        place < 20,
    ensures
        generation::generation_name(value).len() == 20,
        generation::generation_name(value)[19 - place] == letter(
            (value as int / pow(10, place)) % 10,
        ),
        generation::canonical_generation(name) == Some(value) <==> 1 <= value <= 1_000_000 && name
            == generation::generation_name(value),
{
    lemma_letter_at(value, 10, 20, place);
    if 1 <= value <= 1_000_000 {
        generation::lemma_canonical_generation(value);
    }
}

/// An identity is named by the three letters of its kind, a low line, and its number in thirty-two
/// lower-case hexadecimal digits.
pub proof fn law_identity_names_are_spelled(value: u128, place: nat)
    requires
        place < 32,
    ensures
        ({
            let spelled = letter((value as int / pow(16, place)) % 16);
            let agent = ids::agent_name(value);
            let session = ids::session_name(value);
            let item = ids::item_name(value);
            &&& agent.len() == 36 && session.len() == 36 && item.len() == 36
            &&& agent.take(4) == seq![0x61u8, 0x67u8, 0x74u8, 0x5fu8]
            &&& session.take(4) == seq![0x73u8, 0x65u8, 0x73u8, 0x5fu8]
            &&& item.take(4) == seq![0x69u8, 0x74u8, 0x6du8, 0x5fu8]
            &&& agent[35 - place] == spelled && session[35 - place] == spelled && item[35 - place]
                == spelled
        }),
{
    lemma_letter_at(value as nat, 16, 32, place);
    let tail = digits::numeral(digits::digits(value as nat, 16, 32));
    assert(ids::agent_name(value) == ids::agent_prefix() + tail);
    assert(ids::session_name(value) == ids::session_prefix() + tail);
    assert(ids::item_name(value) == ids::item_prefix() + tail);
    assert(ids::agent_name(value).take(4) =~= ids::agent_prefix());
    assert(ids::session_name(value).take(4) =~= ids::session_prefix());
    assert(ids::item_name(value).take(4) =~= ids::item_prefix());
}

/// The text of an entity's name.
pub open spec fn entity_text(key: EntityKey) -> Seq<char> {
    match key.kind {
        EntityKind::Agent => ids::agent_name(key.id),
        EntityKind::Session => ids::session_name(key.id),
    }.map_values(|byte: u8| byte as char)
}

/// The text of a generation's name.
pub open spec fn generation_text(generation: StorageGeneration) -> Seq<char> {
    generation::generation_name(generation@).map_values(|byte: u8| byte as char)
}

/// The directory of the entities of a kind.
pub open spec fn collection_text(kind: EntityKind) -> Seq<char> {
    match kind {
        EntityKind::Agent => "agents"@,
        EntityKind::Session => "sessions"@,
    }
}

/// Where everything of a store lies below its root.
pub proof fn law_where_everything_lies(
    kind: EntityKind,
    key: EntityKey,
    generation: StorageGeneration,
)
    ensures
        ({
            let collection = collection_text(key.kind);
            let entity = entity_text(key);
            let number = generation_text(generation);
            let generations = "generations"@;
            &&& StoreLocation::Root.spec_components() == Seq::<Seq<char>>::empty()
            &&& StoreLocation::LockFile.spec_components() == seq![".minicore.lock"@]
            &&& StoreLocation::FormatMarker.spec_components() == seq!["MINICORE_STORE_V1"@]
            &&& StoreLocation::Reservations.spec_components() == seq!["reservations"@]
            &&& StoreLocation::ReservationCollection(kind).spec_components() == seq![
                "reservations"@,
                collection_text(kind),
            ]
            &&& StoreLocation::Reservation(key).spec_components() == seq![
                "reservations"@,
                collection,
                entity,
            ]
            &&& StoreLocation::EntityCollection(kind).spec_components() == seq![
                collection_text(kind),
            ]
            &&& StoreLocation::Entity(key).spec_components() == seq![collection, entity]
            &&& StoreLocation::Published(key).spec_components() == seq![
                collection,
                entity,
                "PUBLISHED"@,
            ]
            &&& StoreLocation::Conversation(key).spec_components() == seq![
                collection,
                entity,
                "conversation.jsonl"@,
            ]
            &&& StoreLocation::Generations(key).spec_components() == seq![
                collection,
                entity,
                generations,
            ]
            &&& StoreLocation::Generation(key, generation).spec_components() == seq![
                collection,
                entity,
                generations,
                number,
            ]
            &&& StoreLocation::Head(key, generation).spec_components() == seq![
                collection,
                entity,
                generations,
                number,
                "head.json"@,
            ]
            &&& StoreLocation::Definition(key, generation).spec_components() == seq![
                collection,
                entity,
                generations,
                number,
                "definition.json"@,
            ]
            &&& StoreLocation::Committed(key, generation).spec_components() == seq![
                collection,
                entity,
                generations,
                number,
                "COMMITTED"@,
            ]
        }),
{
    reveal_with_fuel(StoreLocation::spec_components, 7);
    assert(entity_text(key) =~= key.spec_name());
    assert(generation_text(generation) =~= digits::ascii_text(
        generation::generation_name(generation@),
    ));
    assert(StoreLocation::Root.spec_components() =~= Seq::<Seq<char>>::empty());
    assert(StoreLocation::Reservations.spec_components() =~= seq!["reservations"@]);
    assert(StoreLocation::EntityCollection(key.kind).spec_components() =~= seq![
        collection_text(key.kind),
    ]);
    assert(StoreLocation::ReservationCollection(key.kind).spec_components() =~= seq![
        "reservations"@,
        collection_text(key.kind),
    ]);
    assert(StoreLocation::Entity(key).spec_components() =~= seq![
        collection_text(key.kind),
        entity_text(key),
    ]);
    assert(StoreLocation::Generations(key).spec_components() =~= seq![
        collection_text(key.kind),
        entity_text(key),
        "generations"@,
    ]);
    assert(StoreLocation::Generation(key, generation).spec_components() =~= seq![
        collection_text(key.kind),
        entity_text(key),
        "generations"@,
        generation_text(generation),
    ]);
}

} // verus!
