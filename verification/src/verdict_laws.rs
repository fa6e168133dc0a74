//! Which of several findings a scan reports.

use crate::collection_scan;
use crate::collection_scan::{EntityEntryObservation, NamedEntryObservation};
use crate::entity_scan;
use crate::entity_scan::{EntityKind, EntityObservation};
use crate::generation::StorageGeneration;
use crate::generation_scan;
use crate::generation_scan::{
    GenerationChain, GenerationEntryObservation, GenerationPayloadObservation,
};
use crate::listing::DirectoryListing;
use crate::open_error::DurableOpenError;
use crate::physical;
use crate::physical::{CleanupNodeIdentityShape, Lookup, NodeKind, StoreLimits};
use crate::root_laws;
use crate::scan_errors;
use crate::scan_laws;
use vstd::prelude::*;
use vstd::utf8;

verus! {

/// The error of a result, if it is one.
pub open spec fn finding<T>(result: Result<T, DurableOpenError>) -> Option<DurableOpenError> {
    match result {
        Ok(_) => None,
        Err(error) => Some(error),
    }
}

/// A corruption, under a condition.
pub open spec fn corrupt_where(condition: bool) -> Option<DurableOpenError> {
    if condition {
        Some(DurableOpenError::DurableStateCorrupt)
    } else {
        None
    }
}

/// A finding, under a condition.
pub open spec fn found_where(condition: bool, found: Option<DurableOpenError>) -> Option<
    DurableOpenError,
> {
    if condition {
        found
    } else {
        None
    }
}

/// What is reported of findings in their order: that something is too large, wherever it was found, and
/// otherwise the first one.
pub open spec fn reported(findings: Seq<Option<DurableOpenError>>) -> Option<DurableOpenError> {
    if findings.contains(Some(DurableOpenError::DurableStateTooLarge)) {
        Some(DurableOpenError::DurableStateTooLarge)
    } else {
        first_of(findings)
    }
}

/// The first finding.
pub open spec fn first_of(findings: Seq<Option<DurableOpenError>>) -> Option<DurableOpenError>
    decreases findings.len(),
{
    if findings.len() == 0 {
        None
    } else if findings[0] is Some {
        findings[0]
    } else {
        first_of(findings.skip(1))
    }
}

spec fn recorded(findings: Seq<Option<DurableOpenError>>) -> Seq<DurableOpenError>
    decreases findings.len(),
{
    if findings.len() == 0 {
        seq![]
    } else {
        (match findings[0] {
            Some(error) => seq![error],
            None => seq![],
        }) + recorded(findings.skip(1))
    }
}

proof fn lemma_recorded_contains(findings: Seq<Option<DurableOpenError>>, error: DurableOpenError)
    ensures
        recorded(findings).contains(error) <==> findings.contains(Some(error)),
    decreases findings.len(),
{
    if findings.len() > 0 {
        let rest = findings.skip(1);
        lemma_recorded_contains(rest, error);
        let here = match findings[0] {
            Some(first) => seq![first],
            None => seq![],
        };
        if findings.contains(Some(error)) {
            let k = choose|k: int| 0 <= k < findings.len() && findings[k] == Some(error);
            if k == 0 {
                assert((here + recorded(rest))[0] == error);
            } else {
                assert(rest[k - 1] == Some(error));
                let m = choose|m: int| 0 <= m < recorded(rest).len() && recorded(rest)[m] == error;
                assert((here + recorded(rest))[here.len() + m] == error);
            }
        }
        if recorded(findings).contains(error) {
            let m = choose|m: int|
                0 <= m < recorded(findings).len() && recorded(findings)[m] == error;
            if m < here.len() {
                assert(findings[0] == Some(error));
            } else {
                assert(recorded(rest)[m - here.len()] == error);
                let k = choose|k: int| 0 <= k < rest.len() && rest[k] == Some(error);
                assert(findings[k + 1] == Some(error));
            }
        }
    }
}

proof fn lemma_first_recorded(findings: Seq<Option<DurableOpenError>>)
    ensures
        first_of(findings) == if recorded(findings).len() > 0 {
            Some(recorded(findings)[0])
        } else {
            None
        },
    decreases findings.len(),
{
    if findings.len() > 0 {
        lemma_first_recorded(findings.skip(1));
    }
}

proof fn lemma_reported(findings: Seq<Option<DurableOpenError>>)
    ensures
        scan_errors::dominant(recorded(findings)) == reported(findings),
{
    lemma_recorded_contains(findings, DurableOpenError::DurableStateTooLarge);
    lemma_first_recorded(findings);
}

/// The findings of a scan are recorded in their order.
proof fn lemma_first_then_rest(found: Option<DurableOpenError>, rest: Seq<Option<DurableOpenError>>)
    ensures
        recorded(seq![found] + rest) == as_seq(found) + recorded(rest),
{
    reveal(as_seq);
    let all = seq![found] + rest;
    assert(all.skip(1) =~= rest);
    assert(all[0] == found);
}

proof fn lemma_sums(
    a: Seq<DurableOpenError>,
    b: Seq<DurableOpenError>,
    c: Seq<DurableOpenError>,
    d: Seq<DurableOpenError>,
    e: Seq<DurableOpenError>,
    f: Seq<DurableOpenError>,
)
    ensures
        a + (b + (c + (d + (e + (f + Seq::<DurableOpenError>::empty()))))) == a + b + c + d + e + f,
        a + (b + (c + (d + Seq::<DurableOpenError>::empty()))) == a + b + c + d,
{
    assert(a + (b + (c + (d + (e + (f + Seq::<DurableOpenError>::empty()))))) =~= a + b + c + d + e
        + f);
    assert(a + (b + (c + (d + Seq::<DurableOpenError>::empty()))) =~= a + b + c + d);
}

proof fn lemma_four(
    a: Option<DurableOpenError>,
    b: Option<DurableOpenError>,
    c: Option<DurableOpenError>,
    d: Option<DurableOpenError>,
)
    ensures
        recorded(seq![a, b, c, d]) == as_seq(a) + as_seq(b) + as_seq(c) + as_seq(d),
{
    let none = Seq::<Option<DurableOpenError>>::empty();
    lemma_first_then_rest(d, none);
    lemma_first_then_rest(c, seq![d] + none);
    lemma_first_then_rest(b, seq![c] + (seq![d] + none));
    lemma_first_then_rest(a, seq![b] + (seq![c] + (seq![d] + none)));
    assert(seq![a, b, c, d] =~= seq![a] + (seq![b] + (seq![c] + (seq![d] + none))));
    lemma_sums(as_seq(a), as_seq(b), as_seq(c), as_seq(d), seq![], seq![]);
}

proof fn lemma_six(
    a: Option<DurableOpenError>,
    b: Option<DurableOpenError>,
    c: Option<DurableOpenError>,
    d: Option<DurableOpenError>,
    e: Option<DurableOpenError>,
    f: Option<DurableOpenError>,
)
    ensures
        recorded(seq![a, b, c, d, e, f]) == as_seq(a) + as_seq(b) + as_seq(c) + as_seq(d) + as_seq(e)
            + as_seq(f),
{
    let none = Seq::<Option<DurableOpenError>>::empty();
    let last = seq![f] + none;
    let two = seq![e] + last;
    let three = seq![d] + two;
    let four = seq![c] + three;
    let five = seq![b] + four;
    lemma_first_then_rest(f, none);
    lemma_first_then_rest(e, last);
    lemma_first_then_rest(d, two);
    lemma_first_then_rest(c, three);
    lemma_first_then_rest(b, four);
    lemma_first_then_rest(a, five);
    assert(seq![a, b, c, d, e, f] =~= seq![a] + five);
    lemma_sums(as_seq(a), as_seq(b), as_seq(c), as_seq(d), as_seq(e), as_seq(f));
}

#[verifier::opaque]
spec fn as_seq(found: Option<DurableOpenError>) -> Seq<DurableOpenError> {
    match found {
        Some(error) => seq![error],
        None => seq![],
    }
}

/// What is wrong with a generation directory of a published entity is found in this order: its head, or
/// that a committed one has none, its definition, its marker, and an unknown child.
pub proof fn law_what_is_wrong_with_a_generation(
    generation: StorageGeneration,
    payload: GenerationPayloadObservation,
    limits: StoreLimits,
)
    requires
        payload.listing.opened is Ok,
        !payload.listing.interrupted,
        payload.listing.entries@.len() <= 3,
    ensures
        ({
            let names = payload.listing.entries@;
            let head = scan_laws::is_listed(names, "head.json");
            let committed = scan_laws::is_listed(names, "COMMITTED");
            finding(generation_scan::payload_outcome(generation, payload, limits)) == reported(
                seq![
                    if head {
                        finding(physical::document_shape(payload.head, limits))
                    } else {
                        corrupt_where(committed)
                    },
                    found_where(
                        scan_laws::is_listed(names, "definition.json"),
                        finding(physical::document_shape(payload.definition, limits)),
                    ),
                    found_where(committed, finding(payload.committed.outcome())),
                    corrupt_where(
                        !scan_laws::are_known(names, "head.json", "definition.json", "COMMITTED"),
                    ),
                ],
            )
        }),
{
    let names = payload.listing.entries@;
    scan_laws::law_children_are_known_by_name(names, "head.json", "definition.json", "COMMITTED");
    scan_laws::law_children_are_known_by_name(names, "definition.json", "head.json", "COMMITTED");
    scan_laws::law_children_are_known_by_name(names, "COMMITTED", "head.json", "definition.json");
    let head = scan_laws::is_listed(names, "head.json");
    let committed = scan_laws::is_listed(names, "COMMITTED");
    let a = if head {
        finding(physical::document_shape(payload.head, limits))
    } else {
        corrupt_where(committed)
    };
    let b = found_where(
        scan_laws::is_listed(names, "definition.json"),
        finding(physical::document_shape(payload.definition, limits)),
    );
    let c = found_where(committed, finding(payload.committed.outcome()));
    let d = corrupt_where(
        !scan_laws::are_known(names, "head.json", "definition.json", "COMMITTED"),
    );
    lemma_four(a, b, c, d);
    lemma_reported(seq![a, b, c, d]);
    reveal(as_seq);
    assert(generation_scan::payload_errors(names, payload, limits) =~= as_seq(a) + as_seq(b)
        + as_seq(c) + as_seq(d));
}

/// What is wrong with the generation directory of an unpublished entity is found in this order: its
/// head, its definition, its marker, and an unknown child or a committed one that lacks a document.
pub proof fn law_what_is_wrong_with_an_unpublished_generation(
    shape: CleanupNodeIdentityShape,
    payload: GenerationPayloadObservation,
    limits: StoreLimits,
)
    requires
        payload.listing.opened is Ok,
        !payload.listing.interrupted,
        payload.listing.entries@.len() <= 3,
    ensures
        ({
            let names = payload.listing.entries@;
            let head = scan_laws::is_listed(names, "head.json");
            let definition = scan_laws::is_listed(names, "definition.json");
            let committed = scan_laws::is_listed(names, "COMMITTED");
            finding(generation_scan::unpublished_payload_outcome(shape, payload, limits)) == reported(
                seq![
                    found_where(head, finding(physical::document_shape(payload.head, limits))),
                    found_where(
                        definition,
                        finding(physical::document_shape(payload.definition, limits)),
                    ),
                    found_where(committed, finding(payload.committed.outcome())),
                    corrupt_where(
                        !scan_laws::are_known(names, "head.json", "definition.json", "COMMITTED")
                            || (committed && !(head && definition)),
                    ),
                ],
            )
        }),
{
    let names = payload.listing.entries@;
    scan_laws::law_children_are_known_by_name(names, "head.json", "definition.json", "COMMITTED");
    scan_laws::law_children_are_known_by_name(names, "definition.json", "head.json", "COMMITTED");
    scan_laws::law_children_are_known_by_name(names, "COMMITTED", "head.json", "definition.json");
    let head = scan_laws::is_listed(names, "head.json");
    let definition = scan_laws::is_listed(names, "definition.json");
    let committed = scan_laws::is_listed(names, "COMMITTED");
    let a = found_where(head, finding(physical::document_shape(payload.head, limits)));
    let b = found_where(definition, finding(physical::document_shape(payload.definition, limits)));
    let c = found_where(committed, finding(payload.committed.outcome()));
    let d = corrupt_where(
        !scan_laws::are_known(names, "head.json", "definition.json", "COMMITTED") || (committed
            && !(head && definition)),
    );
    lemma_four(a, b, c, d);
    lemma_reported(seq![a, b, c, d]);
    reveal(as_seq);
    assert(generation_scan::unpublished_payload_errors(names, payload, limits) =~= as_seq(a)
        + as_seq(b) + as_seq(c) + as_seq(d));
}

/// What is wrong with a published entity is found in this order: that its `generations` directory cannot
/// be looked up, its chain, its marker, its directory and its conversation once more, and a child that
/// is unknown or missing.
pub proof fn law_what_is_wrong_with_a_published_entity(
    observation: EntityObservation,
    kind: EntityKind,
    maximum: usize,
    limits: StoreLimits,
)
    requires
        observation.listing.bounded(kind.entry_cap()) is Ok,
        scan_laws::is_listed(observation.listing.entries@, "PUBLISHED"),
    ensures
        ({
            let generations = scan_laws::is_listed(observation.listing.entries@, "generations");
            let conversation = scan_laws::lists_conversation(observation, kind);
            let findings = seq![
                found_where(generations, finding(physical::seen(observation.generations_entry))),
                found_where(
                    scan_laws::is_entered(observation),
                    finding(
                        generation_scan::chain_outcome(observation.generations, maximum, limits),
                    ),
                ),
                finding(observation.published.outcome()),
                found_where(
                    generations,
                    finding(
                        physical::directory_entry(
                            observation.generations_exit,
                            DurableOpenError::DurableStateCorrupt,
                        ),
                    ),
                ),
                found_where(
                    conversation,
                    finding(
                        physical::regular_entry(
                            observation.conversation_exit,
                            DurableOpenError::DurableStateCorrupt,
                        ),
                    ),
                ),
                corrupt_where(
                    !scan_laws::children_are_known(observation, kind) || !generations || (kind
                        == EntityKind::Session && !conversation),
                ),
            ];
            let outcome = entity_scan::entity_outcome(observation, kind, maximum, limits);
            &&& reported(findings) is Some ==> finding(outcome) == reported(findings)
            &&& reported(findings) is None && !scan_laws::is_entered(observation) ==> finding(
                outcome,
            ) == Some(DurableOpenError::DurableStateCorrupt)
        }),
{
    reveal(entity_scan::entity_outcome);
    scan_laws::lemma_entity_names(observation, kind);
    let generations = scan_laws::is_listed(observation.listing.entries@, "generations");
    let conversation = scan_laws::lists_conversation(observation, kind);
    let names = entity_scan::entity_names(observation.listing.entries@, kind);
    let a = found_where(generations, finding(physical::seen(observation.generations_entry)));
    let b = found_where(
        scan_laws::is_entered(observation),
        finding(generation_scan::chain_outcome(observation.generations, maximum, limits)),
    );
    let c = finding(observation.published.outcome());
    let d = found_where(
        generations,
        finding(
            physical::directory_entry(
                observation.generations_exit,
                DurableOpenError::DurableStateCorrupt,
            ),
        ),
    );
    let e = found_where(
        conversation,
        finding(
            physical::regular_entry(
                observation.conversation_exit,
                DurableOpenError::DurableStateCorrupt,
            ),
        ),
    );
    let f = corrupt_where(
        !scan_laws::children_are_known(observation, kind) || !generations || (kind
            == EntityKind::Session && !conversation),
    );
    lemma_six(a, b, c, d, e, f);
    lemma_reported(seq![a, b, c, d, e, f]);
    reveal(as_seq);
    assert(entity_scan::entity_errors(observation, names, kind, maximum, limits) =~= as_seq(a)
        + as_seq(b) + as_seq(c) + as_seq(d) + as_seq(e) + as_seq(f));
}

/// What may be wrong with staging, in this order: the node of its directory, its generation, its
/// conversation, a conversation without a generation, and a committed Session without a conversation.
pub open spec fn staging_findings(
    observation: EntityObservation,
    kind: EntityKind,
    maximum: usize,
    limits: StoreLimits,
) -> Seq<Option<DurableOpenError>> {
    let entered = scan_laws::is_entered(observation);
    let conversation = scan_laws::lists_conversation(observation, kind);
    let generation = generation_scan::unpublished_generation_outcome(
        observation.generations,
        maximum,
        limits,
    );
    let staged = entered && generation is Ok && generation->Ok_0 is Some;
    let committed = staged && generation->Ok_0->0.committed_shape is Some;
    seq![
        found_where(entered, finding(physical::seen(observation.generations_node))),
        found_where(entered, finding(generation)),
        found_where(
            conversation,
            finding(physical::conversation_shape(observation.conversation_node, limits)),
        ),
        corrupt_where(conversation && !staged),
        corrupt_where(kind == EntityKind::Session && !conversation && committed),
        None,
    ]
}

/// What is wrong with staging is found in that order.
pub proof fn law_what_is_wrong_with_staging(
    observation: EntityObservation,
    kind: EntityKind,
    maximum: usize,
    limits: StoreLimits,
)
    requires
        observation.entity is Ok,
    ensures
        finding(
            entity_scan::staged_outcome(
                observation,
                entity_scan::entity_names(observation.listing.entries@, kind),
                kind,
                maximum,
                limits,
            ),
        ) == reported(staging_findings(observation, kind, maximum, limits)),
{
    scan_laws::lemma_entity_names(observation, kind);
    let entered = scan_laws::is_entered(observation);
    let names = entity_scan::entity_names(observation.listing.entries@, kind);
    let facts = entity_scan::staging_facts(observation, maximum, limits);
    let findings = staging_findings(observation, kind, maximum, limits);
    let (a, b, c) = (findings[0], findings[1], findings[2]);
    let (d, e) = (findings[3], findings[4]);
    assert(findings =~= seq![a, b, c, d, e, None]);
    lemma_six(a, b, c, d, e, None);
    lemma_reported(findings);
    let errors = entity_scan::staging_errors(facts, entered, names.conversation, kind);
    assert(errors =~= as_seq(a) + as_seq(b) + as_seq(c) + as_seq(d) + as_seq(e) + as_seq(None)) by {
        reveal(as_seq);
    }
    assert(scan_errors::dominant(errors) == reported(findings));
    let outcome = entity_scan::unpublished_entity_outcome(
        observation,
        entered,
        names.conversation,
        kind,
        maximum,
        limits,
    );
    assert(finding(outcome) == scan_errors::dominant(errors));
    assert(finding(entity_scan::staged_outcome(observation, names, kind, maximum, limits))
        == finding(outcome));
}

/// What is wrong with an unpublished entity is found in this order: that its `generations` directory
/// cannot be looked up, its staging, its directory and its conversation once more, and an unknown child.
pub proof fn law_what_is_wrong_with_an_unpublished_entity(
    observation: EntityObservation,
    kind: EntityKind,
    maximum: usize,
    limits: StoreLimits,
)
    requires
        observation.listing.bounded(kind.entry_cap()) is Ok,
        !scan_laws::is_listed(observation.listing.entries@, "PUBLISHED"),
    ensures
        ({
            let names = entity_scan::entity_names(observation.listing.entries@, kind);
            let generations = scan_laws::is_listed(observation.listing.entries@, "generations");
            let conversation = scan_laws::lists_conversation(observation, kind);
            finding(entity_scan::entity_outcome(observation, kind, maximum, limits)) == reported(
                seq![
                    found_where(
                        generations,
                        finding(physical::seen(observation.generations_entry)),
                    ),
                    finding(entity_scan::staged_outcome(observation, names, kind, maximum, limits)),
                    found_where(
                        generations,
                        finding(
                            physical::directory_entry(
                                observation.generations_exit,
                                DurableOpenError::DurableStateCorrupt,
                            ),
                        ),
                    ),
                    found_where(
                        conversation,
                        finding(
                            physical::regular_entry(
                                observation.conversation_exit,
                                DurableOpenError::DurableStateCorrupt,
                            ),
                        ),
                    ),
                    corrupt_where(!scan_laws::children_are_known(observation, kind)),
                    None,
                ],
            )
        }),
{
    scan_laws::lemma_entity_names(observation, kind);
    let generations = scan_laws::is_listed(observation.listing.entries@, "generations");
    let conversation = scan_laws::lists_conversation(observation, kind);
    let names = entity_scan::entity_names(observation.listing.entries@, kind);
    let outcome = entity_scan::staged_outcome(observation, names, kind, maximum, limits);
    let v = found_where(generations, finding(physical::seen(observation.generations_entry)));
    let w = finding(outcome);
    let x = found_where(
        generations,
        finding(
            physical::directory_entry(
                observation.generations_exit,
                DurableOpenError::DurableStateCorrupt,
            ),
        ),
    );
    let y = found_where(
        conversation,
        finding(
            physical::regular_entry(
                observation.conversation_exit,
                DurableOpenError::DurableStateCorrupt,
            ),
        ),
    );
    let z = corrupt_where(!scan_laws::children_are_known(observation, kind));
    let findings = seq![v, w, x, y, z, None];
    let errors = entity_scan::entity_errors(observation, names, kind, maximum, limits);
    lemma_six(v, w, x, y, z, None);
    lemma_reported(findings);
    assert(errors =~= as_seq(v) + as_seq(w) + as_seq(x) + as_seq(y) + as_seq(z) + as_seq(None)) by {
        reveal(as_seq);
    }
    assert(scan_errors::dominant(errors) == reported(findings));
    if reported(findings) is None {
        lemma_nothing_reported(findings, 1);
        assert(findings[1] == w);
        assert(outcome is Ok);
    }
    assert(finding(entity_scan::entity_outcome(observation, kind, maximum, limits)) == reported(
        findings,
    )) by {
        reveal(entity_scan::entity_outcome);
    }
}

proof fn lemma_nothing_reported(findings: Seq<Option<DurableOpenError>>, i: int)
    requires
        reported(findings) is None,
        0 <= i < findings.len(),
    ensures
        findings[i] is None,
{
    lemma_reported(findings);
    if findings[i] is Some {
        lemma_recorded_contains(findings, findings[i]->0);
        assert(findings.contains(findings[i]));
    }
}

/// What is wrong with a chain of generations is found in this order: names that are no generations, then
/// the generations from the lowest to the highest, then what does not continue the chain or that nothing
/// is committed.
pub proof fn law_what_is_wrong_with_a_chain(
    listing: DirectoryListing<GenerationEntryObservation>,
    maximum: usize,
    limits: StoreLimits,
)
    requires
        listing.opened is Ok,
        !listing.interrupted,
        listing.entries@.len() <= maximum,
    ensures
        ({
            let entries = listing.entries@;
            let names = generation_scan::generation_name_errors(entries);
            let walk = generation_scan::walk_errors(
                entries,
                generation_scan::generation_order(entries),
                limits,
            );
            let outcome = generation_scan::chain_outcome(listing, maximum, limits);
            let size = DurableOpenError::DurableStateTooLarge;
            if walk.contains(size) {
                outcome == Err::<GenerationChain, DurableOpenError>(size)
            } else if names.len() > 0 {
                outcome == Err::<GenerationChain, DurableOpenError>(
                    DurableOpenError::DurableStateCorrupt,
                )
            } else if walk.len() > 0 {
                outcome == Err::<GenerationChain, DurableOpenError>(walk[0])
            } else {
                outcome is Err ==> outcome == Err::<GenerationChain, DurableOpenError>(
                    DurableOpenError::DurableStateCorrupt,
                )
            }
        }),
{
    let entries = listing.entries@;
    let names = generation_scan::generation_name_errors(entries);
    let order = generation_scan::generation_order(entries);
    let walk = generation_scan::walk_errors(entries, order, limits);
    let chain = generation_scan::chained(generation_scan::walk_payloads(entries, order, limits));
    let size = DurableOpenError::DurableStateTooLarge;
    let corrupt = DurableOpenError::DurableStateCorrupt;
    let misplaced = generation_scan::corruptions(chain.misplaced);
    let missing = scan_errors::corrupt_if(chain.committed.len() == 0);
    lemma_name_errors(entries);
    root_laws::lemma_any(names, walk, size);
    root_laws::lemma_any(names + walk, misplaced, size);
    root_laws::lemma_any(names + walk + misplaced, missing, size);
    let errors = generation_scan::chain_errors(entries, limits);
    assert(errors == names + walk + misplaced + missing);
    assert(!missing.contains(size));
    assert(!misplaced.contains(size));
    assert(!names.contains(size));
    if errors.len() > 0 && names.len() == 0 && walk.len() == 0 {
        assert(errors[0] == corrupt);
    }
}

proof fn lemma_name_errors(entries: Seq<GenerationEntryObservation>)
    ensures
        forall|i: int|
            0 <= i < generation_scan::generation_name_errors(entries).len()
                ==> #[trigger] generation_scan::generation_name_errors(entries)[i]
                == DurableOpenError::DurableStateCorrupt,
        generation_scan::generation_name_errors(entries).len() == 0 <==> (forall|i: int|
            0 <= i < entries.len() ==> generation_scan::entry_generation(
                #[trigger] entries[i],
            ) is Some),
    decreases entries.len(),
{
    if entries.len() > 0 {
        let front = entries.drop_last();
        lemma_name_errors(front);
        assert(entries[entries.len() - 1] == entries.last());
        assert forall|i: int| 0 <= i < front.len() implies front[i] == entries[i] by {}
        if generation_scan::generation_name_errors(entries).len() == 0 {
            assert forall|i: int| 0 <= i < entries.len() implies generation_scan::entry_generation(
                #[trigger] entries[i],
            ) is Some by {
                if i < front.len() {
                    assert(front[i] == entries[i]);
                }
            }
        }
    }
}

/// What is wrong with one generation of a chain: that it cannot be looked up; or that its directory is not
/// private, and what is wrong with its files.
pub proof fn law_what_is_wrong_with_one_generation(
    entries: Seq<GenerationEntryObservation>,
    before: Seq<int>,
    place: int,
    limits: StoreLimits,
)
    requires
        0 <= place < entries.len(),
    ensures
        generation_scan::walk_errors(entries, Seq::empty(), limits).len() == 0,
        generation_scan::walk_errors(entries, before.push(place), limits)
            == generation_scan::walk_errors(entries, before, limits)
            + generation_scan::visit_errors(entries[place], limits),
        ({
            let entry = entries[place];
            let number = generation_scan::entry_generation(entry)->0;
            let found = generation_scan::visit_errors(entry, limits);
            match entry.metadata {
                Err(_) => found == seq![DurableOpenError::StorageUnavailable],
                Ok(metadata) => {
                    let corrupt = if scan_laws::is_private_directory(entry.metadata) {
                        Seq::<DurableOpenError>::empty()
                    } else {
                        seq![DurableOpenError::DurableStateCorrupt]
                    };
                    if metadata.kind != NodeKind::Directory {
                        found == corrupt
                    } else {
                        match generation_scan::payload_outcome(
                            StorageGeneration::of(number),
                            entry.payload,
                            limits,
                        ) {
                            Ok(_) => found == corrupt,
                            Err(error) => found == corrupt + seq![error],
                        }
                    }
                },
            }
        }),
{
    assert(before.push(place).drop_last() =~= before);
}

/// What is wrong with a single staged generation: a name that is no generation, a node that cannot be
/// looked up, a directory that is not private, its files, and that it is not the first.
pub proof fn law_what_is_wrong_with_staged_generations(
    listing: DirectoryListing<GenerationEntryObservation>,
    maximum: usize,
    limits: StoreLimits,
)
    requires
        listing.opened is Ok,
        !listing.interrupted,
        listing.entries@.len() == 1,
        maximum >= 1,
    ensures
        ({
            let entry = listing.entries@[0];
            let outcome = generation_scan::unpublished_generation_outcome(listing, maximum, limits);
            let corrupt = Some(DurableOpenError::DurableStateCorrupt);
            if generation_scan::entry_generation(entry) is None {
                finding(outcome) == corrupt
            } else {
                match entry.metadata {
                    Err(_) => finding(outcome) == Some(DurableOpenError::StorageUnavailable),
                    Ok(metadata) => if metadata.kind != NodeKind::Directory {
                        finding(outcome) == corrupt
                    } else {
                        match generation_scan::unpublished_payload_outcome(
                            metadata.identity,
                            entry.payload,
                            limits,
                        ) {
                            Err(error) => finding(outcome) == if error
                                == DurableOpenError::DurableStateTooLarge
                                || scan_laws::is_private_directory(entry.metadata) {
                                Some(error)
                            } else {
                                corrupt
                            },
                            Ok(_) => finding(outcome) == corrupt_where(
                                !scan_laws::is_private_directory(entry.metadata)
                                    || generation_scan::entry_generation(entry) != Some(1nat),
                            ),
                        }
                    },
                }
            }
        }),
{
    let entries = listing.entries@;
    let front = entries.drop_last();
    assert(front =~= seq![]);
    assert(generation_scan::unpublished_walk(front, limits).errors.len() == 0);
    assert(generation_scan::unpublished_walk(front, limits).first is None);
    let walk = generation_scan::unpublished_walk(entries, limits);
    let size = DurableOpenError::DurableStateTooLarge;
    let missing = scan_errors::corrupt_if(entries.len() != 1 || walk.first is None);
    let errors = walk.errors + missing;
    assert(entries.last() == entries[0]);
    match entries[0].metadata {
        Ok(metadata) => {
            if generation_scan::entry_generation(entries[0]) is Some && metadata.kind is Directory {
                match generation_scan::unpublished_payload_outcome(
                    metadata.identity,
                    entries[0].payload,
                    limits,
                ) {
                    Err(error) => {
                        let private = scan_errors::corrupt_if(!metadata.is_private_directory());
                        assert(walk.errors =~= private + seq![error]);
                        if error == size {
                            assert(errors[private.len() as int] == size);
                        } else {
                            assert(!errors.contains(size));
                        }
                    },
                    Ok(_) => {
                        assert(!errors.contains(size));
                    },
                }
            } else {
                assert(!errors.contains(size));
            }
        },
        Err(_) => {
            assert(!errors.contains(size));
        },
    }
}

/// What is wrong with entering a collection: that it cannot be looked up; or that it is not a private
/// directory, and, where it is a directory, that it cannot be listed.
pub proof fn law_what_is_wrong_with_a_collection<T>(
    metadata: Lookup,
    listing: DirectoryListing<T>,
    maximum: usize,
)
    ensures
        ({
            let found = collection_scan::entering_errors(metadata, listing, maximum);
            match metadata {
                Err(_) => found == seq![DurableOpenError::StorageUnavailable],
                Ok(node) => {
                    let corrupt = if scan_laws::is_private_directory(metadata) {
                        Seq::<DurableOpenError>::empty()
                    } else {
                        seq![DurableOpenError::DurableStateCorrupt]
                    };
                    if node.kind != NodeKind::Directory {
                        found == corrupt
                    } else {
                        match listing.bounded(maximum) {
                            Ok(_) => found == corrupt,
                            Err(error) => found == corrupt + seq![error],
                        }
                    }
                },
            }
        }),
{
}

/// What is wrong with one entry of the reservations directory, and with one name of a collection.
pub proof fn law_what_is_wrong_with_one_entry(
    before: Seq<NamedEntryObservation>,
    entry: NamedEntryObservation,
    entities: Seq<EntityEntryObservation>,
    entity: EntityEntryObservation,
    kind: EntityKind,
)
    ensures
        collection_scan::reservations_entry_errors(before.push(entry))
            == collection_scan::reservations_entry_errors(before) + if entry.name@
            == utf8::encode_utf8("agents"@) || entry.name@ == utf8::encode_utf8("sessions"@) {
            if entry.metadata is Err {
                seq![DurableOpenError::StorageUnavailable]
            } else if scan_laws::is_private_directory(entry.metadata) {
                Seq::<DurableOpenError>::empty()
            } else {
                seq![DurableOpenError::DurableStateCorrupt]
            }
        } else {
            seq![DurableOpenError::DurableStateCorrupt]
        },
        ({
            let placed = collection_scan::entity_places(entities, kind);
            let after = collection_scan::entity_places(entities.push(entity), kind);
            match collection_scan::entity_id(kind, entity.name@) {
                None => after.places == placed.places && after.errors == placed.errors.push(
                    DurableOpenError::DurableStateCorrupt,
                ),
                Some(id) => after.places == placed.places.insert(id, entities.len() as int)
                    && after.errors == if placed.places.contains_key(id) {
                    placed.errors.push(DurableOpenError::DurableStateCorrupt)
                } else {
                    placed.errors
                },
            }
        }),
{
    assert(before.push(entry).drop_last() =~= before);
    assert(entities.push(entity).drop_last() =~= entities);
    let placed = collection_scan::entity_places(entities, kind);
    assert(placed.errors + Seq::<DurableOpenError>::empty() =~= placed.errors);
    assert(placed.errors + seq![DurableOpenError::DurableStateCorrupt] =~= placed.errors.push(
        DurableOpenError::DurableStateCorrupt,
    ));
}

} // verus!
