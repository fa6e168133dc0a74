//! Which removals a last look allows, said over what that look shows.

use crate::cleanup_plan;
use crate::cleanup_plan::{
    CleanupPayloadSubset, DeferredGenerationCleanup, DeferredUnpublishedEntityCleanup,
    EntityChildren, EntityCleanupObservation, GenerationCleanupObservation, StagedPayload,
};
use crate::generation;
use crate::generation_scan::UnpublishedGenerationFiles;
use crate::listing;
use crate::listing::{CleanupEntry, DirectoryListing};
use crate::open_error::DurableOpenError;
use crate::physical;
use crate::physical::{
    CleanupNodeIdentityShape, Lookup, LookupError, NodeKind, NodeMetadata, StoreLimits,
};
use crate::scan_laws;
use vstd::prelude::*;
use vstd::utf8;

verus! {

/// Whether no name comes twice.
pub open spec fn are_distinct(entries: Seq<CleanupEntry>) -> bool {
    forall|i: int, j: int|
        0 <= i < j < entries.len() ==> (#[trigger] entries[i]).name@ != (
        #[trigger] entries[j]).name@
}

/// Whether an entry has a name.
pub open spec fn is_named(entry: CleanupEntry, name: &str) -> bool {
    entry.name@ == utf8::encode_utf8(name@)
}

/// Whether some entry has a name.
pub open spec fn has(entries: Seq<CleanupEntry>, name: &str) -> bool {
    exists|i: int| 0 <= i < entries.len() && is_named(#[trigger] entries[i], name)
}

proof fn lemma_same_entries_stay_distinct(a: Seq<CleanupEntry>, b: Seq<CleanupEntry>)
    requires
        a.len() == b.len(),
        forall|x: CleanupEntry| a.contains(x) <==> b.contains(x),
        are_distinct(a),
    ensures
        are_distinct(b),
{
    assert forall|i: int, j: int| 0 <= i < a.len() && 0 <= j < a.len() && i != j implies a[i]
        != a[j] by {
        if i < j {
            assert(a[i].name@ != a[j].name@);
        } else {
            assert(a[j].name@ != a[i].name@);
        }
    }
    assert(a.no_duplicates());
    a.unique_seq_to_set();
    assert(a.to_set() =~= b.to_set()) by {
        assert forall|x: CleanupEntry| a.to_set().contains(x) == b.to_set().contains(x) by {
            assert(a.contains(x) == b.contains(x));
        }
    }
    b.lemma_no_dup_set_cardinality();
    assert forall|i: int, j: int| 0 <= i < j < b.len() implies (#[trigger] b[i]).name@ != (
    #[trigger] b[j]).name@ by {
        assert(b[i] != b[j]);
        assert(b.contains(b[i]) && b.contains(b[j]));
        assert(a.contains(b[i]) && a.contains(b[j]));
        let p = choose|p: int| 0 <= p < a.len() && a[p] == b[i];
        let q = choose|q: int| 0 <= q < a.len() && a[q] == b[j];
        if p < q {
            assert(a[p].name@ != a[q].name@);
        } else if q < p {
            assert(a[q].name@ != a[p].name@);
        }
    }
}

/// Sorting keeps the entries, and with them whether any name comes twice.
pub proof fn law_sorting_keeps_the_entries(entries: Seq<CleanupEntry>)
    ensures
        listing::sorted_by_name(entries).len() == entries.len(),
        forall|x: CleanupEntry| #[trigger]
            listing::sorted_by_name(entries).contains(x) <==> entries.contains(x),
        are_distinct(listing::sorted_by_name(entries)) <==> are_distinct(entries),
        forall|name: &str| #[trigger]
            has(listing::sorted_by_name(entries), name) <==> has(entries, name),
{
    let sorted = listing::sorted_by_name(entries);
    assert forall|x: CleanupEntry| #[trigger] sorted.contains(x) <==> entries.contains(x) by {
        listing::lemma_sorted_contains(entries, x);
    }
    if entries.len() > 0 {
        listing::lemma_sorted_contains(entries, entries[0]);
    }
    if are_distinct(entries) {
        lemma_same_entries_stay_distinct(entries, sorted);
    }
    if are_distinct(sorted) {
        lemma_same_entries_stay_distinct(sorted, entries);
    }
    assert forall|name: &str| #[trigger] has(sorted, name) <==> has(entries, name) by {
        if has(sorted, name) {
            let i = choose|i: int| 0 <= i < sorted.len() && is_named(#[trigger] sorted[i], name);
            assert(sorted.contains(sorted[i]));
            let k = choose|k: int| 0 <= k < entries.len() && entries[k] == sorted[i];
            assert(is_named(entries[k], name));
        }
        if has(entries, name) {
            let i = choose|i: int| 0 <= i < entries.len() && is_named(#[trigger] entries[i], name);
            assert(entries.contains(entries[i]));
            assert(sorted.contains(entries[i]));
            let k = choose|k: int| 0 <= k < sorted.len() && sorted[k] == entries[i];
            assert(is_named(sorted[k], name));
        }
    }
}

proof fn lemma_payload_names_differ()
    ensures
        utf8::encode_utf8("COMMITTED"@) != utf8::encode_utf8("head.json"@),
        utf8::encode_utf8("COMMITTED"@) != utf8::encode_utf8("definition.json"@),
        utf8::encode_utf8("head.json"@) != utf8::encode_utf8("definition.json"@),
        utf8::encode_utf8("PUBLISHED"@) != utf8::encode_utf8("generations"@),
        utf8::encode_utf8("PUBLISHED"@) != utf8::encode_utf8("conversation.jsonl"@),
        utf8::encode_utf8("generations"@) != utf8::encode_utf8("conversation.jsonl"@),
{
    reveal_strlit("COMMITTED");
    reveal_strlit("head.json");
    reveal_strlit("definition.json");
    reveal_strlit("PUBLISHED");
    reveal_strlit("generations");
    reveal_strlit("conversation.jsonl");
    utf8::encode_utf8_decode_utf8("COMMITTED"@);
    utf8::encode_utf8_decode_utf8("head.json"@);
    utf8::encode_utf8_decode_utf8("definition.json"@);
    utf8::encode_utf8_decode_utf8("PUBLISHED"@);
    utf8::encode_utf8_decode_utf8("generations"@);
    utf8::encode_utf8_decode_utf8("conversation.jsonl"@);
    assert("COMMITTED"@[0] == 'C');
    assert("head.json"@[0] == 'h');
    assert("definition.json"@.len() == 15);
    assert("COMMITTED"@.len() == 9 && "head.json"@.len() == 9);
    assert("PUBLISHED"@.len() == 9 && "generations"@.len() == 11);
    assert("conversation.jsonl"@.len() == 18);
}

/// Whether an entry is a document of a trailing generation that may be removed.
pub open spec fn is_document(entry: CleanupEntry, limits: StoreLimits) -> bool {
    &&& is_named(entry, "head.json") || is_named(entry, "definition.json")
    &&& physical::cleanup_document_shape(entry.metadata, limits) is Ok
}

proof fn lemma_subset(entries: Seq<CleanupEntry>, limits: StoreLimits)
    ensures
        ({
            let seen = cleanup_plan::payload_subset(entries, limits);
            &&& seen is Ok <==> are_distinct(entries) && forall|i: int|
                0 <= i < entries.len() ==> is_document(#[trigger] entries[i], limits)
            &&& seen matches Ok(seen) ==> seen == (CleanupPayloadSubset {
                has_head: has(entries, "head.json"),
                has_definition: has(entries, "definition.json"),
            })
        }),
    decreases entries.len(),
{
    lemma_payload_names_differ();
    if entries.len() > 0 {
        let front = entries.drop_last();
        let last = entries.last();
        let end = entries.len() - 1;
        lemma_subset(front, limits);
        assert(entries[end] == last);
        assert forall|i: int| 0 <= i < front.len() implies front[i] == entries[i] by {}
        lemma_has_grows(entries, "head.json");
        lemma_has_grows(entries, "definition.json");
        lemma_distinct_grows(entries);
        let before = cleanup_plan::payload_subset(front, limits);
        let seen = cleanup_plan::payload_subset(entries, limits);
        if seen is Ok {
            assert(before is Ok);
            assert forall|i: int| 0 <= i < front.len() implies (#[trigger] front[i]).name@
                != last.name@ by {
                assert(is_document(front[i], limits));
                if front[i].name@ == last.name@ {
                    assert(is_named(front[i], "head.json") ==> has(front, "head.json"));
                    assert(is_named(front[i], "definition.json") ==> has(front, "definition.json"));
                }
            }
            assert forall|i: int| 0 <= i < entries.len() implies is_document(
                #[trigger] entries[i],
                limits,
            ) by {
                if i < end {
                    assert(is_document(front[i], limits));
                }
            }
        }
        if are_distinct(entries) && (forall|i: int|
            0 <= i < entries.len() ==> is_document(#[trigger] entries[i], limits)) {
            assert forall|i: int| 0 <= i < front.len() implies is_document(
                #[trigger] front[i],
                limits,
            ) by {
                assert(is_document(entries[i], limits));
            }
            assert(before is Ok);
            assert(is_document(entries[end], limits));
            if is_named(last, "head.json") && has(front, "head.json") {
                let k = choose|k: int|
                    0 <= k < front.len() && is_named(#[trigger] front[k], "head.json");
                assert(entries[k].name@ != entries[end].name@);
            }
            if is_named(last, "definition.json") && has(front, "definition.json") {
                let k = choose|k: int|
                    0 <= k < front.len() && is_named(#[trigger] front[k], "definition.json");
                assert(entries[k].name@ != entries[end].name@);
            }
        }
    }
}

proof fn lemma_has_grows(entries: Seq<CleanupEntry>, name: &str)
    requires
        entries.len() > 0,
    ensures
        has(entries, name) <==> has(entries.drop_last(), name) || is_named(entries.last(), name),
{
    let front = entries.drop_last();
    if has(front, name) {
        let k = choose|k: int| 0 <= k < front.len() && is_named(#[trigger] front[k], name);
        assert(is_named(entries[k], name));
    }
    if is_named(entries.last(), name) {
        assert(is_named(entries[entries.len() - 1], name));
    }
    if has(entries, name) {
        let k = choose|k: int| 0 <= k < entries.len() && is_named(#[trigger] entries[k], name);
        if k < front.len() {
            assert(is_named(front[k], name));
        }
    }
}

proof fn lemma_distinct_grows(entries: Seq<CleanupEntry>)
    requires
        entries.len() > 0,
    ensures
        are_distinct(entries) <==> are_distinct(entries.drop_last()) && forall|i: int|
            0 <= i < entries.len() - 1 ==> (#[trigger] entries.drop_last()[i]).name@
                != entries.last().name@,
{
    let front = entries.drop_last();
    let end = entries.len() - 1;
    if are_distinct(entries) {
        assert forall|i: int, j: int| 0 <= i < j < front.len() implies (#[trigger] front[i]).name@
            != (#[trigger] front[j]).name@ by {
            assert(entries[i].name@ != entries[j].name@);
        }
        assert forall|i: int| 0 <= i < end implies (#[trigger] front[i]).name@
            != entries.last().name@ by {
            assert(entries[i].name@ != entries[end].name@);
        }
    } else {
        let (i, j) = choose|i: int, j: int|
            0 <= i < j < entries.len() && (#[trigger] entries[i]).name@ == (
            #[trigger] entries[j]).name@;
        assert(front[i] == entries[i]);
        if j < end {
            assert(front[j] == entries[j]);
        }
    }
}

/// Whether a marker is still an empty private file.
pub open spec fn is_empty_private_file(lookup: Lookup) -> bool {
    match lookup {
        Ok(metadata) => metadata.kind == NodeKind::Regular && metadata.mode % 4096 == 384
            && metadata.length == 0,
        Err(_) => false,
    }
}

/// A trailing generation may be removed exactly if its reservation and `PUBLISHED` are still empty
/// markers, its directories are still private, and its own directory lists exactly the documents that
/// were planned, each once, still private and within the limit.
pub proof fn law_planned_trailing_generations_are_removed(
    plan: DeferredGenerationCleanup,
    observation: GenerationCleanupObservation,
    limits: StoreLimits,
)
    ensures
        ({
            let entries = observation.payload.entries@;
            let outcome = cleanup_plan::generation_revalidation(plan, observation, limits);
            &&& outcome is Ok <==> {
                &&& is_empty_private_file(observation.reservation)
                &&& is_empty_private_file(observation.published)
                &&& scan_laws::is_private_directory(observation.generations)
                &&& scan_laws::is_private_directory(observation.generation)
                &&& observation.payload.opened is Ok && !observation.payload.interrupted
                &&& entries.len() <= 3 && are_distinct(entries)
                &&& forall|i: int|
                    0 <= i < entries.len() ==> is_document(#[trigger] entries[i], limits)
                &&& has(entries, "head.json") == plan.has_head
                &&& has(entries, "definition.json") == plan.has_definition
            }
            &&& outcome matches Ok(seen) ==> seen.has_head == plan.has_head && seen.has_definition
                == plan.has_definition
        }),
{
    let entries = observation.payload.entries@;
    let sorted = listing::sorted_by_name(entries);
    law_sorting_keeps_the_entries(entries);
    lemma_subset(sorted, limits);
    assert(has(sorted, "head.json") == has(entries, "head.json"));
    assert(has(sorted, "definition.json") == has(entries, "definition.json"));
    assert((forall|i: int| 0 <= i < sorted.len() ==> is_document(#[trigger] sorted[i], limits))
        <==> (forall|i: int|
        0 <= i < entries.len() ==> is_document(#[trigger] entries[i], limits))) by {
        if forall|i: int| 0 <= i < sorted.len() ==> is_document(#[trigger] sorted[i], limits) {
            assert forall|i: int| 0 <= i < entries.len() implies is_document(
                #[trigger] entries[i],
                limits,
            ) by {
                assert(entries.contains(entries[i]));
                assert(sorted.contains(entries[i]));
                let k = choose|k: int| 0 <= k < sorted.len() && sorted[k] == entries[i];
                assert(is_document(sorted[k], limits));
            }
        }
        if forall|i: int| 0 <= i < entries.len() ==> is_document(#[trigger] entries[i], limits) {
            assert forall|i: int| 0 <= i < sorted.len() implies is_document(
                #[trigger] sorted[i],
                limits,
            ) by {
                assert(sorted.contains(sorted[i]));
                assert(entries.contains(sorted[i]));
                let k = choose|k: int| 0 <= k < entries.len() && entries[k] == sorted[i];
                assert(is_document(entries[k], limits));
            }
        }
    }
}

/// Whether an entry is a child of an unpublished entity that may be removed.
pub open spec fn is_child(entry: CleanupEntry, limits: StoreLimits) -> bool {
    ||| is_named(entry, "generations") && scan_laws::is_private_directory(entry.metadata)
        && entry.reread is Ok
    ||| is_named(entry, "conversation.jsonl") && physical::conversation_shape(
        entry.metadata,
        limits,
    ) is Ok
}

/// Whether an entry shows what was planned of a child.
pub open spec fn is_planned_child(
    entry: CleanupEntry,
    plan: DeferredUnpublishedEntityCleanup,
    limits: StoreLimits,
) -> bool {
    ||| is_named(entry, "generations") && scan_laws::is_private_directory(entry.metadata)
        && entry.reread is Ok && plan.generations is Some && plan.generations->0.shape
        == entry.reread->Ok_0.identity
    ||| is_named(entry, "conversation.jsonl") && physical::conversation_shape(
        entry.metadata,
        limits,
    ) is Ok && plan.conversation_shape == Some(
        physical::conversation_shape(entry.metadata, limits)->Ok_0,
    )
}

proof fn lemma_children(entries: Seq<CleanupEntry>, limits: StoreLimits)
    ensures
        ({
            let seen = cleanup_plan::entity_children(entries, limits);
            &&& seen is Ok <==> are_distinct(entries) && forall|i: int|
                0 <= i < entries.len() ==> is_child(#[trigger] entries[i], limits)
            &&& seen matches Ok(seen) ==> {
                &&& seen.generations is Some == has(entries, "generations")
                &&& seen.conversation is Some == has(entries, "conversation.jsonl")
                &&& forall|i: int|
                    0 <= i < entries.len() && is_named(#[trigger] entries[i], "generations")
                        ==> seen.generations == Some(entries[i].reread->Ok_0.identity)
                &&& forall|i: int|
                    0 <= i < entries.len() && is_named(#[trigger] entries[i], "conversation.jsonl")
                        ==> seen.conversation == Some(
                        physical::conversation_shape(entries[i].metadata, limits)->Ok_0,
                    )
            }
        }),
    decreases entries.len(),
{
    lemma_payload_names_differ();
    if entries.len() > 0 {
        let front = entries.drop_last();
        let last = entries.last();
        let end = entries.len() - 1;
        lemma_children(front, limits);
        assert(entries[end] == last);
        assert forall|i: int| 0 <= i < front.len() implies front[i] == entries[i] by {}
        lemma_has_grows(entries, "generations");
        lemma_has_grows(entries, "conversation.jsonl");
        lemma_distinct_grows(entries);
        let before = cleanup_plan::entity_children(front, limits);
        let seen = cleanup_plan::entity_children(entries, limits);
        if seen is Ok {
            assert(before is Ok);
            assert forall|i: int| 0 <= i < front.len() implies (#[trigger] front[i]).name@
                != last.name@ by {
                assert(is_child(front[i], limits));
                if front[i].name@ == last.name@ {
                    assert(is_named(front[i], "generations") ==> has(front, "generations"));
                    assert(is_named(front[i], "conversation.jsonl") ==> has(
                        front,
                        "conversation.jsonl",
                    ));
                }
            }
            assert forall|i: int| 0 <= i < entries.len() implies is_child(
                #[trigger] entries[i],
                limits,
            ) by {
                if i < end {
                    assert(is_child(front[i], limits));
                }
            }
            assert forall|i: int|
                0 <= i < entries.len() && is_named(#[trigger] entries[i], "generations") implies
                seen->Ok_0.generations == Some(entries[i].reread->Ok_0.identity) by {
                if i < end {
                    assert(is_named(front[i], "generations"));
                }
            }
            assert forall|i: int|
                0 <= i < entries.len() && is_named(
                    #[trigger] entries[i],
                    "conversation.jsonl",
                ) implies seen->Ok_0.conversation == Some(
                physical::conversation_shape(entries[i].metadata, limits)->Ok_0,
            ) by {
                if i < end {
                    assert(is_named(front[i], "conversation.jsonl"));
                }
            }
        }
        if are_distinct(entries) && (forall|i: int|
            0 <= i < entries.len() ==> is_child(#[trigger] entries[i], limits)) {
            assert forall|i: int| 0 <= i < front.len() implies is_child(
                #[trigger] front[i],
                limits,
            ) by {
                assert(is_child(entries[i], limits));
            }
            assert(before is Ok);
            assert(is_child(entries[end], limits));
            if is_named(last, "generations") && has(front, "generations") {
                let k = choose|k: int|
                    0 <= k < front.len() && is_named(#[trigger] front[k], "generations");
                assert(entries[k].name@ != entries[end].name@);
            }
            if is_named(last, "conversation.jsonl") && has(front, "conversation.jsonl") {
                let k = choose|k: int|
                    0 <= k < front.len() && is_named(#[trigger] front[k], "conversation.jsonl");
                assert(entries[k].name@ != entries[end].name@);
            }
        }
    }
}

/// Whether some entries show exactly the children that were planned.
pub open spec fn are_planned_children(
    entries: Seq<CleanupEntry>,
    plan: DeferredUnpublishedEntityCleanup,
    limits: StoreLimits,
) -> bool {
    &&& are_distinct(entries)
    &&& forall|i: int|
        0 <= i < entries.len() ==> is_planned_child(#[trigger] entries[i], plan, limits)
    &&& plan.generations is Some ==> has(entries, "generations")
    &&& plan.conversation_shape is Some ==> has(entries, "conversation.jsonl")
}

proof fn lemma_planned_children(
    entries: Seq<CleanupEntry>,
    plan: DeferredUnpublishedEntityCleanup,
    limits: StoreLimits,
)
    ensures
        cleanup_plan::entity_children(listing::sorted_by_name(entries), limits) == Ok::<
            EntityChildren,
            DurableOpenError,
        >(cleanup_plan::planned_children(plan)) <==> are_planned_children(entries, plan, limits),
{
    let sorted = listing::sorted_by_name(entries);
    law_sorting_keeps_the_entries(entries);
    lemma_children(sorted, limits);
    lemma_payload_names_differ();
    assert(has(sorted, "generations") == has(entries, "generations"));
    assert(has(sorted, "conversation.jsonl") == has(entries, "conversation.jsonl"));
    let seen = cleanup_plan::entity_children(sorted, limits);
    if seen == Ok::<EntityChildren, DurableOpenError>(cleanup_plan::planned_children(plan)) {
        assert forall|i: int| 0 <= i < entries.len() implies is_planned_child(
            #[trigger] entries[i],
            plan,
            limits,
        ) by {
            assert(entries.contains(entries[i]));
            assert(sorted.contains(entries[i]));
            let k = choose|k: int| 0 <= k < sorted.len() && sorted[k] == entries[i];
            assert(is_child(sorted[k], limits));
        }
    }
    if are_planned_children(entries, plan, limits) {
        assert forall|i: int| 0 <= i < sorted.len() implies is_child(#[trigger] sorted[i], limits)
            && is_planned_child(sorted[i], plan, limits) by {
            assert(sorted.contains(sorted[i]));
            assert(entries.contains(sorted[i]));
            let k = choose|k: int| 0 <= k < entries.len() && entries[k] == sorted[i];
            assert(is_planned_child(entries[k], plan, limits));
        }
        assert(seen is Ok);
        if has(sorted, "generations") {
            let k = choose|k: int|
                0 <= k < sorted.len() && is_named(#[trigger] sorted[k], "generations");
            assert(is_planned_child(sorted[k], plan, limits));
        }
        if has(sorted, "conversation.jsonl") {
            let k = choose|k: int|
                0 <= k < sorted.len() && is_named(#[trigger] sorted[k], "conversation.jsonl");
            assert(is_planned_child(sorted[k], plan, limits));
        }
        assert(seen->Ok_0 == cleanup_plan::planned_children(plan));
    }
}

/// Whether an entry is a file of a staged generation that may be removed.
pub open spec fn is_staged(
    entry: CleanupEntry,
    committed: Option<CleanupNodeIdentityShape>,
    limits: StoreLimits,
) -> bool {
    ||| is_named(entry, "COMMITTED") && is_empty_private_file(entry.metadata) && committed == Some(
        entry.metadata->Ok_0.identity,
    )
    ||| (is_named(entry, "head.json") || is_named(entry, "definition.json"))
        && physical::cleanup_document_shape(entry.metadata, limits) is Ok
}

/// Whether an entry shows what was planned of a file.
pub open spec fn is_planned_file(
    entry: CleanupEntry,
    files: UnpublishedGenerationFiles,
    limits: StoreLimits,
) -> bool {
    ||| is_named(entry, "COMMITTED") && is_empty_private_file(entry.metadata)
        && files.committed_shape == Some(entry.metadata->Ok_0.identity)
    ||| is_named(entry, "head.json") && physical::cleanup_document_shape(entry.metadata, limits)
        is Ok && files.head_shape == Some(
        physical::cleanup_document_shape(entry.metadata, limits)->Ok_0,
    )
    ||| is_named(entry, "definition.json") && physical::cleanup_document_shape(
        entry.metadata,
        limits,
    ) is Ok && files.definition_shape == Some(
        physical::cleanup_document_shape(entry.metadata, limits)->Ok_0,
    )
}

proof fn lemma_staged(
    entries: Seq<CleanupEntry>,
    committed: Option<CleanupNodeIdentityShape>,
    limits: StoreLimits,
)
    ensures
        ({
            let seen = cleanup_plan::staged_payload(entries, committed, limits);
            &&& seen is Ok <==> are_distinct(entries) && forall|i: int|
                0 <= i < entries.len() ==> is_staged(#[trigger] entries[i], committed, limits)
            &&& seen matches Ok(seen) ==> {
                &&& seen.has_committed == has(entries, "COMMITTED")
                &&& seen.head is Some == has(entries, "head.json")
                &&& seen.definition is Some == has(entries, "definition.json")
                &&& forall|i: int|
                    0 <= i < entries.len() && is_named(#[trigger] entries[i], "head.json")
                        ==> seen.head == Some(
                        physical::cleanup_document_shape(entries[i].metadata, limits)->Ok_0,
                    )
                &&& forall|i: int|
                    0 <= i < entries.len() && is_named(#[trigger] entries[i], "definition.json")
                        ==> seen.definition == Some(
                        physical::cleanup_document_shape(entries[i].metadata, limits)->Ok_0,
                    )
            }
        }),
    decreases entries.len(),
{
    lemma_payload_names_differ();
    if entries.len() > 0 {
        let front = entries.drop_last();
        let last = entries.last();
        let end = entries.len() - 1;
        lemma_staged(front, committed, limits);
        assert(entries[end] == last);
        assert forall|i: int| 0 <= i < front.len() implies front[i] == entries[i] by {}
        lemma_has_grows(entries, "COMMITTED");
        lemma_has_grows(entries, "head.json");
        lemma_has_grows(entries, "definition.json");
        lemma_distinct_grows(entries);
        let before = cleanup_plan::staged_payload(front, committed, limits);
        let seen = cleanup_plan::staged_payload(entries, committed, limits);
        if seen is Ok {
            assert(before is Ok);
            assert forall|i: int| 0 <= i < front.len() implies (#[trigger] front[i]).name@
                != last.name@ by {
                assert(is_staged(front[i], committed, limits));
                if front[i].name@ == last.name@ {
                    assert(is_named(front[i], "COMMITTED") ==> has(front, "COMMITTED"));
                    assert(is_named(front[i], "head.json") ==> has(front, "head.json"));
                    assert(is_named(front[i], "definition.json") ==> has(front, "definition.json"));
                }
            }
            assert forall|i: int| 0 <= i < entries.len() implies is_staged(
                #[trigger] entries[i],
                committed,
                limits,
            ) by {
                if i < end {
                    assert(is_staged(front[i], committed, limits));
                }
            }
            assert forall|i: int|
                0 <= i < entries.len() && is_named(#[trigger] entries[i], "head.json") implies
                seen->Ok_0.head == Some(
                physical::cleanup_document_shape(entries[i].metadata, limits)->Ok_0,
            ) by {
                if i < end {
                    assert(is_named(front[i], "head.json"));
                }
            }
            assert forall|i: int|
                0 <= i < entries.len() && is_named(
                    #[trigger] entries[i],
                    "definition.json",
                ) implies seen->Ok_0.definition == Some(
                physical::cleanup_document_shape(entries[i].metadata, limits)->Ok_0,
            ) by {
                if i < end {
                    assert(is_named(front[i], "definition.json"));
                }
            }
        }
        if are_distinct(entries) && (forall|i: int|
            0 <= i < entries.len() ==> is_staged(#[trigger] entries[i], committed, limits)) {
            assert forall|i: int| 0 <= i < front.len() implies is_staged(
                #[trigger] front[i],
                committed,
                limits,
            ) by {
                assert(is_staged(entries[i], committed, limits));
            }
            assert(before is Ok);
            assert(is_staged(entries[end], committed, limits));
            if is_named(last, "COMMITTED") && has(front, "COMMITTED") {
                let k = choose|k: int|
                    0 <= k < front.len() && is_named(#[trigger] front[k], "COMMITTED");
                assert(entries[k].name@ != entries[end].name@);
            }
            if is_named(last, "head.json") && has(front, "head.json") {
                let k = choose|k: int|
                    0 <= k < front.len() && is_named(#[trigger] front[k], "head.json");
                assert(entries[k].name@ != entries[end].name@);
            }
            if is_named(last, "definition.json") && has(front, "definition.json") {
                let k = choose|k: int|
                    0 <= k < front.len() && is_named(#[trigger] front[k], "definition.json");
                assert(entries[k].name@ != entries[end].name@);
            }
        }
    }
}

/// Whether a listing shows exactly the files that were planned.
pub open spec fn are_planned_files(
    payload: DirectoryListing<CleanupEntry>,
    files: UnpublishedGenerationFiles,
    limits: StoreLimits,
) -> bool {
    let entries = payload.entries@;
    &&& payload.opened is Ok && !payload.interrupted
    &&& entries.len() <= 3 && are_distinct(entries)
    &&& forall|i: int|
        0 <= i < entries.len() ==> is_planned_file(#[trigger] entries[i], files, limits)
    &&& files.committed_shape is Some ==> has(entries, "COMMITTED")
    &&& files.head_shape is Some ==> has(entries, "head.json")
    &&& files.definition_shape is Some ==> has(entries, "definition.json")
}

proof fn lemma_planned_files(
    payload: DirectoryListing<CleanupEntry>,
    files: UnpublishedGenerationFiles,
    limits: StoreLimits,
)
    ensures
        cleanup_plan::payload_revalidation(files, payload, limits) is Ok <==> are_planned_files(
            payload,
            files,
            limits,
        ),
{
    let entries = payload.entries@;
    let sorted = listing::sorted_by_name(entries);
    law_sorting_keeps_the_entries(entries);
    lemma_staged(sorted, files.committed_shape, limits);
    lemma_payload_names_differ();
    assert(has(sorted, "COMMITTED") == has(entries, "COMMITTED"));
    assert(has(sorted, "head.json") == has(entries, "head.json"));
    assert(has(sorted, "definition.json") == has(entries, "definition.json"));
    let seen = cleanup_plan::staged_payload(sorted, files.committed_shape, limits);
    if cleanup_plan::payload_revalidation(files, payload, limits) is Ok {
        assert forall|i: int| 0 <= i < entries.len() implies is_planned_file(
            #[trigger] entries[i],
            files,
            limits,
        ) by {
            assert(entries.contains(entries[i]));
            assert(sorted.contains(entries[i]));
            let k = choose|k: int| 0 <= k < sorted.len() && sorted[k] == entries[i];
            assert(is_staged(sorted[k], files.committed_shape, limits));
        }
    }
    if are_planned_files(payload, files, limits) {
        assert forall|i: int| 0 <= i < sorted.len() implies is_staged(
            #[trigger] sorted[i],
            files.committed_shape,
            limits,
        ) && is_planned_file(sorted[i], files, limits) by {
            assert(sorted.contains(sorted[i]));
            assert(entries.contains(sorted[i]));
            let k = choose|k: int| 0 <= k < entries.len() && entries[k] == sorted[i];
            assert(is_planned_file(entries[k], files, limits));
        }
        assert(seen is Ok);
        if has(sorted, "COMMITTED") {
            let k = choose|k: int|
                0 <= k < sorted.len() && is_named(#[trigger] sorted[k], "COMMITTED");
            assert(is_planned_file(sorted[k], files, limits));
        }
        if has(sorted, "head.json") {
            let k = choose|k: int|
                0 <= k < sorted.len() && is_named(#[trigger] sorted[k], "head.json");
            assert(is_planned_file(sorted[k], files, limits));
        }
        if has(sorted, "definition.json") {
            let k = choose|k: int|
                0 <= k < sorted.len() && is_named(#[trigger] sorted[k], "definition.json");
            assert(is_planned_file(sorted[k], files, limits));
        }
        assert(seen->Ok_0 == (StagedPayload {
            has_committed: files.committed_shape is Some,
            head: files.head_shape,
            definition: files.definition_shape,
        }));
    }
}

/// Whether a look shows the generations that were planned: none, or nothing but the first one, on the
/// planned node and with the planned files.
pub open spec fn are_planned_generations(
    plan: DeferredUnpublishedEntityCleanup,
    observation: EntityCleanupObservation,
    limits: StoreLimits,
) -> bool {
    match plan.generations {
        None => true,
        Some(planned) => {
            let entries = observation.generations.entries@;
            &&& observation.generations.opened is Ok && !observation.generations.interrupted
            &&& entries.len() <= plan.generation_collection_cap
            &&& match planned.generation {
                None => entries.len() == 0,
                Some(files) => {
                    &&& entries.len() == 1
                    &&& entries[0].name@ == generation::generation_name(1)
                    &&& scan_laws::is_private_directory(entries[0].metadata)
                    &&& entries[0].reread is Ok && entries[0].reread->Ok_0.identity
                        == files.generation_shape
                    &&& are_planned_files(observation.payload, files, limits)
                },
            }
        },
    }
}

/// An unpublished entity may be removed exactly if its reservation is still the same empty marker,
/// `PUBLISHED` is found absent, its directory is still the same private directory, and it shows exactly
/// the children, the generation and the files that were planned, on their nodes.
pub proof fn law_planned_entities_are_removed(
    plan: DeferredUnpublishedEntityCleanup,
    observation: EntityCleanupObservation,
    limits: StoreLimits,
)
    ensures
        cleanup_plan::entity_revalidation(plan, observation, limits) is Ok <==> {
            let entries = observation.children.entries@;
            &&& is_empty_private_file(observation.reservation)
                && observation.reservation->Ok_0.identity == plan.reservation_shape
            &&& observation.published == Err::<NodeMetadata, LookupError>(
                LookupError::NotFound,
            )
            &&& scan_laws::is_private_directory(observation.entity)
                && observation.entity->Ok_0.identity == plan.entity_shape
            &&& observation.children.opened is Ok && !observation.children.interrupted
            &&& entries.len() <= plan.entity_entry_cap
            &&& are_planned_children(entries, plan, limits)
            &&& are_planned_generations(plan, observation, limits)
        },
{
    lemma_planned_children(observation.children.entries@, plan, limits);
    generation::lemma_canonical_generation(1);
    match plan.generations {
        None => {},
        Some(planned) => match planned.generation {
            None => {},
            Some(files) => {
                lemma_planned_files(observation.payload, files, limits);
            },
        },
    }
}

/// Why a trailing generation is not removed, in this order: its reservation, `PUBLISHED`, its two
/// directories, its listing, its entries by name; and that it holds other documents than planned.
pub proof fn law_why_a_trailing_generation_stays(
    plan: DeferredGenerationCleanup,
    observation: GenerationCleanupObservation,
    limits: StoreLimits,
)
    ensures
        ({
            let outcome = cleanup_plan::generation_revalidation(plan, observation, limits);
            let entries = observation.payload.entries@;
            let subset = cleanup_plan::payload_subset(listing::sorted_by_name(entries), limits);
            if physical::cleanup_zero_shape(observation.reservation) is Err {
                outcome == Err::<CleanupPayloadSubset, DurableOpenError>(
                    physical::cleanup_zero_shape(observation.reservation)->Err_0,
                )
            } else if physical::cleanup_zero_shape(observation.published) is Err {
                outcome == Err::<CleanupPayloadSubset, DurableOpenError>(
                    physical::cleanup_zero_shape(observation.published)->Err_0,
                )
            } else if !scan_laws::is_private_directory(observation.generations) {
                outcome == Err::<CleanupPayloadSubset, DurableOpenError>(
                    why_not_a_directory(observation.generations),
                )
            } else if !scan_laws::is_private_directory(observation.generation) {
                outcome == Err::<CleanupPayloadSubset, DurableOpenError>(
                    why_not_a_directory(observation.generation),
                )
            } else if observation.payload.bounded_for_cleanup(3usize) is Err {
                outcome == Err::<CleanupPayloadSubset, DurableOpenError>(
                    observation.payload.bounded_for_cleanup(3usize)->Err_0,
                )
            } else if subset is Err {
                outcome == Err::<CleanupPayloadSubset, DurableOpenError>(subset->Err_0)
            } else {
                outcome is Err ==> outcome == Err::<CleanupPayloadSubset, DurableOpenError>(
                    DurableOpenError::DurableStateCorrupt,
                )
            }
        }),
{
}

/// Why a node is no private directory any more: one that is gone or changed is corrupt, one that cannot
/// be looked up is unavailable.
pub open spec fn why_not_a_directory(lookup: Lookup) -> DurableOpenError {
    if lookup == Err::<NodeMetadata, LookupError>(LookupError::Unreadable) {
        DurableOpenError::StorageUnavailable
    } else {
        DurableOpenError::DurableStateCorrupt
    }
}

/// Why an entry of a trailing generation stops its removal: a marker, an unknown name and a document that
/// comes twice are corrupt; a document decides with its own error. The first entry that does decides.
pub proof fn law_why_an_entry_stops_a_removal(
    before: Seq<CleanupEntry>,
    entry: CleanupEntry,
    limits: StoreLimits,
)
    ensures
        cleanup_plan::payload_subset(before, limits) is Err ==> cleanup_plan::payload_subset(
            before.push(entry),
            limits,
        ) == cleanup_plan::payload_subset(before, limits),
        cleanup_plan::payload_subset(before, limits) matches Ok(seen) ==> {
            let after = cleanup_plan::payload_subset(before.push(entry), limits);
            let corrupt = Err::<CleanupPayloadSubset, DurableOpenError>(
                DurableOpenError::DurableStateCorrupt,
            );
            let shape = physical::cleanup_document_shape(entry.metadata, limits);
            let known = is_named(entry, "head.json") || is_named(entry, "definition.json");
            let twice = (is_named(entry, "head.json") && seen.has_head) || (is_named(
                entry,
                "definition.json",
            ) && seen.has_definition);
            &&& !known || twice ==> after == corrupt
            &&& known && !twice && shape is Err ==> after == Err::<
                CleanupPayloadSubset,
                DurableOpenError,
            >(shape->Err_0)
        },
{
    assert(before.push(entry).drop_last() =~= before);
    lemma_payload_names_differ();
}

/// Why an unpublished entity is not removed, in this order: its reservation, that it is published, its own
/// directory, its listing, its children by name, and its generations.
pub proof fn law_why_an_unpublished_entity_stays(
    plan: DeferredUnpublishedEntityCleanup,
    observation: EntityCleanupObservation,
    limits: StoreLimits,
)
    ensures
        ({
            let outcome = cleanup_plan::entity_revalidation(plan, observation, limits);
            let corrupt = Err::<(), DurableOpenError>(DurableOpenError::DurableStateCorrupt);
            let listed = observation.children.bounded_for_cleanup(plan.entity_entry_cap);
            let children = cleanup_plan::entity_children(
                listing::sorted_by_name(observation.children.entries@),
                limits,
            );
            if physical::cleanup_zero_shape(observation.reservation) is Err {
                outcome == Err::<(), DurableOpenError>(
                    physical::cleanup_zero_shape(observation.reservation)->Err_0,
                )
            } else if observation.reservation->Ok_0.identity != plan.reservation_shape {
                outcome == corrupt
            } else if physical::absence(observation.published) is Err {
                outcome == physical::absence(observation.published)
            } else if !scan_laws::is_private_directory(observation.entity) {
                outcome == Err::<(), DurableOpenError>(why_not_a_directory(observation.entity))
            } else if observation.entity->Ok_0.identity != plan.entity_shape {
                outcome == corrupt
            } else if listed is Err {
                outcome == Err::<(), DurableOpenError>(listed->Err_0)
            } else if children is Err {
                outcome == Err::<(), DurableOpenError>(children->Err_0)
            } else if !are_planned_children(observation.children.entries@, plan, limits) {
                outcome == corrupt
            } else {
                outcome == cleanup_plan::generations_revalidation(plan, observation, limits)
            }
        }),
{
    lemma_planned_children(observation.children.entries@, plan, limits);
}

/// Why a child of an unpublished entity stops its removal: `PUBLISHED`, an unknown name and a child that
/// comes twice are corrupt; its directory and its conversation decide with their own errors.
pub proof fn law_why_a_child_stops_a_removal(
    before: Seq<CleanupEntry>,
    entry: CleanupEntry,
    limits: StoreLimits,
)
    ensures
        cleanup_plan::entity_children(before, limits) is Err ==> cleanup_plan::entity_children(
            before.push(entry),
            limits,
        ) == cleanup_plan::entity_children(before, limits),
        cleanup_plan::entity_children(before, limits) matches Ok(seen) ==> {
            let after = cleanup_plan::entity_children(before.push(entry), limits);
            let corrupt = Err::<EntityChildren, DurableOpenError>(
                DurableOpenError::DurableStateCorrupt,
            );
            let unavailable = Err::<EntityChildren, DurableOpenError>(
                DurableOpenError::StorageUnavailable,
            );
            let shape = physical::conversation_shape(entry.metadata, limits);
            &&& is_named(entry, "PUBLISHED") ==> after == corrupt
            &&& !is_named(entry, "generations") && !is_named(entry, "conversation.jsonl") ==> after
                == corrupt
            &&& is_named(entry, "generations") && seen.generations is Some ==> after == corrupt
            &&& is_named(entry, "conversation.jsonl") && seen.conversation is Some ==> after
                == corrupt
            &&& is_named(entry, "generations") && seen.generations is None ==> {
                &&& entry.metadata is Err ==> after == unavailable
                &&& entry.metadata is Ok && !scan_laws::is_private_directory(entry.metadata)
                    ==> after == corrupt
                &&& scan_laws::is_private_directory(entry.metadata) && entry.reread is Err ==> after
                    == Err::<EntityChildren, DurableOpenError>(why_not_a_directory(entry.reread))
            }
            &&& is_named(entry, "conversation.jsonl") && seen.conversation is None && shape is Err
                ==> after == Err::<EntityChildren, DurableOpenError>(shape->Err_0)
        },
{
    assert(before.push(entry).drop_last() =~= before);
    lemma_payload_names_differ();
}

/// Why staged generations stop the removal of their entity: a listing that fails decides with its own
/// error; another number of generations, another name and another node are corrupt; a node decides with
/// its own error, and behind it the listing of its files and each file by name.
pub proof fn law_why_generations_stop_a_removal(
    plan: DeferredUnpublishedEntityCleanup,
    observation: EntityCleanupObservation,
    limits: StoreLimits,
)
    requires
        plan.generations is Some,
    ensures
        ({
            let planned = plan.generations->0;
            let entries = observation.generations.entries@;
            let outcome = cleanup_plan::generations_revalidation(plan, observation, limits);
            let corrupt = Err::<(), DurableOpenError>(DurableOpenError::DurableStateCorrupt);
            let listed = observation.generations.bounded_for_cleanup(
                plan.generation_collection_cap,
            );
            if listed is Err {
                outcome == Err::<(), DurableOpenError>(listed->Err_0)
            } else {
                match planned.generation {
                    None => outcome == if entries.len() == 0 {
                        Ok::<(), DurableOpenError>(())
                    } else {
                        corrupt
                    },
                    Some(files) => if entries.len() != 1 || entries[0].name@
                        != generation::generation_name(1) {
                        outcome == corrupt
                    } else if entries[0].metadata is Err {
                        outcome == Err::<(), DurableOpenError>(DurableOpenError::StorageUnavailable)
                    } else if !scan_laws::is_private_directory(entries[0].metadata) {
                        outcome == corrupt
                    } else if entries[0].reread is Err {
                        outcome == Err::<(), DurableOpenError>(
                            why_not_a_directory(entries[0].reread),
                        )
                    } else if entries[0].reread->Ok_0.identity != files.generation_shape {
                        outcome == corrupt
                    } else {
                        let payload = observation.payload.bounded_for_cleanup(3usize);
                        let staged = cleanup_plan::staged_payload(
                            listing::sorted_by_name(observation.payload.entries@),
                            files.committed_shape,
                            limits,
                        );
                        if payload is Err {
                            outcome == Err::<(), DurableOpenError>(payload->Err_0)
                        } else if staged is Err {
                            outcome == Err::<(), DurableOpenError>(staged->Err_0)
                        } else {
                            outcome is Err ==> outcome == corrupt
                        }
                    },
                }
            }
        }),
{
    generation::lemma_canonical_generation(1);
    if observation.generations.entries@.len() == 1 {
        let name = observation.generations.entries@[0].name@;
        if generation::canonical_generation(name) == Some(1nat) {
            assert(name == generation::generation_name(1));
        }
    }
}

/// Why a file of staging stops the removal of its entity: an unknown name, one that comes twice, and a
/// marker on another node are corrupt; anything else decides with its own error.
pub proof fn law_why_a_file_stops_a_removal(
    before: Seq<CleanupEntry>,
    entry: CleanupEntry,
    committed: Option<CleanupNodeIdentityShape>,
    limits: StoreLimits,
)
    ensures
        cleanup_plan::staged_payload(before, committed, limits) is Err
            ==> cleanup_plan::staged_payload(before.push(entry), committed, limits)
            == cleanup_plan::staged_payload(before, committed, limits),
        cleanup_plan::staged_payload(before, committed, limits) matches Ok(seen) ==> {
            let after = cleanup_plan::staged_payload(before.push(entry), committed, limits);
            let corrupt = Err::<StagedPayload, DurableOpenError>(
                DurableOpenError::DurableStateCorrupt,
            );
            let marker = physical::cleanup_zero_shape(entry.metadata);
            let shape = physical::cleanup_document_shape(entry.metadata, limits);
            &&& !is_named(entry, "COMMITTED") && !is_named(entry, "head.json") && !is_named(
                entry,
                "definition.json",
            ) ==> after == corrupt
            &&& is_named(entry, "COMMITTED") ==> {
                &&& seen.has_committed ==> after == corrupt
                &&& !seen.has_committed && marker is Err ==> after == Err::<
                    StagedPayload,
                    DurableOpenError,
                >(marker->Err_0)
                &&& !seen.has_committed && marker is Ok && committed != Some(marker->Ok_0) ==> after
                    == corrupt
            }
            &&& is_named(entry, "head.json") ==> {
                &&& seen.head is Some ==> after == corrupt
                &&& seen.head is None && shape is Err ==> after == Err::<
                    StagedPayload,
                    DurableOpenError,
                >(shape->Err_0)
            }
            &&& is_named(entry, "definition.json") ==> {
                &&& seen.definition is Some ==> after == corrupt
                &&& seen.definition is None && shape is Err ==> after == Err::<
                    StagedPayload,
                    DurableOpenError,
                >(shape->Err_0)
            }
        },
{
    assert(before.push(entry).drop_last() =~= before);
    lemma_payload_names_differ();
}

} // verus!
