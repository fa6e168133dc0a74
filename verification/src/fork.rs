//! The origins of forked Sessions.

use crate::idmap::ascending_keys;
use crate::open_error::DurableOpenError;
use crate::physical;
use crate::session_chain::{DurableSessionCatalogEntry, SessionEntryView};
use std::collections::BTreeMap;
use vstd::prelude::*;

verus! {

/// The recovered Sessions, by identity.
pub type SessionCatalog = BTreeMap<u128, DurableSessionCatalogEntry>;

pub open spec fn session_models(sessions: Map<u128, DurableSessionCatalogEntry>) -> Map<
    u128,
    SessionEntryView,
> {
    sessions.map_values(|entry: DurableSessionCatalogEntry| entry@)
}

/// The Session reached from `id` by following fork sources `steps` times; `None` once the walk has
/// left a Session without a source.
pub open spec fn fork_ancestor(
    sessions: Map<u128, SessionEntryView>,
    id: u128,
    steps: nat,
) -> Option<u128>
    decreases steps,
{
    if steps == 0 {
        Some(id)
    } else {
        match fork_ancestor(sessions, id, (steps - 1) as nat) {
            Some(ancestor) => sessions[ancestor].head.fork_source(),
            None => None,
        }
    }
}

/// Every fork source is itself a recovered Session.
pub open spec fn fork_sources_resolve(sessions: Map<u128, SessionEntryView>) -> bool {
    forall|id: u128| #[trigger]
        sessions.contains_key(id) ==> match sessions[id].head.fork_source() {
            Some(source) => sessions.contains_key(source),
            None => true,
        }
}

/// No Session descends from itself.
pub open spec fn forks_are_acyclic(sessions: Map<u128, SessionEntryView>) -> bool {
    forall|id: u128, steps: nat|
        sessions.contains_key(id) && steps > 0 ==> #[trigger] fork_ancestor(sessions, id, steps)
            != Some(id)
}

pub open spec fn fork_graph_is_sound(sessions: Map<u128, SessionEntryView>) -> bool {
    fork_sources_resolve(sessions) && forks_are_acyclic(sessions)
}

/// Following the sources of a Session comes to an end.
pub open spec fn fork_chain_ends(sessions: Map<u128, SessionEntryView>, id: u128) -> bool {
    exists|steps: nat| #[trigger] fork_ancestor(sessions, id, steps) is None
}

proof fn lemma_ancestors_compose(
    sessions: Map<u128, SessionEntryView>,
    id: u128,
    first: nat,
    second: nat,
)
    requires
        fork_ancestor(sessions, id, first) is Some,
    ensures
        fork_ancestor(sessions, id, first + second) == fork_ancestor(
            sessions,
            fork_ancestor(sessions, id, first)->0,
            second,
        ),
    decreases second,
{
    if second > 0 {
        lemma_ancestors_compose(sessions, id, first, (second - 1) as nat);
    }
}

proof fn lemma_absence_persists(
    sessions: Map<u128, SessionEntryView>,
    id: u128,
    low: nat,
    high: nat,
)
    requires
        low <= high,
        fork_ancestor(sessions, id, low) is None,
    ensures
        fork_ancestor(sessions, id, high) is None,
    decreases high,
{
    if low < high {
        lemma_absence_persists(sessions, id, low, (high - 1) as nat);
    }
}

/// A chain that ends never comes back to its start.
proof fn lemma_ending_chain_has_no_cycle(
    sessions: Map<u128, SessionEntryView>,
    id: u128,
    steps: nat,
    end: nat,
)
    requires
        steps > 0,
        fork_ancestor(sessions, id, end) is None,
    ensures
        fork_ancestor(sessions, id, steps) != Some(id),
    decreases end,
{
    if fork_ancestor(sessions, id, steps) == Some(id) {
        if end < steps {
            lemma_absence_persists(sessions, id, end, steps);
        } else {
            lemma_ancestors_compose(sessions, id, steps, (end - steps) as nat);
            lemma_ending_chain_has_no_cycle(sessions, id, steps, (end - steps) as nat);
        }
    }
}

proof fn lemma_chain_extends(sessions: Map<u128, SessionEntryView>, id: u128)
    requires
        match sessions[id].head.fork_source() {
            Some(source) => fork_chain_ends(sessions, source),
            None => true,
        },
    ensures
        fork_chain_ends(sessions, id),
{
    assert(fork_ancestor(sessions, id, 0) == Some(id));
    match sessions[id].head.fork_source() {
        None => {
            assert(fork_ancestor(sessions, id, 1) is None);
        },
        Some(source) => {
            let steps = choose|steps: nat| #[trigger]
                fork_ancestor(sessions, source, steps) is None;
            assert(fork_ancestor(sessions, id, 1) == Some(source));
            lemma_ancestors_compose(sessions, id, 1, steps);
            assert(fork_ancestor(sessions, id, 1 + steps) is None);
        },
    }
}

#[derive(Clone, Copy, PartialEq, Eq, Structural)]
enum ForkProvenanceVisit {
    Visiting,
    Done,
}

/// The walk over one chain: every Session on it is the source of the one before.
spec fn is_fork_path(sessions: Map<u128, SessionEntryView>, chain: Seq<u128>) -> bool {
    forall|i: int, j: int|
        0 <= i < chain.len() && j == i + 1 && j < chain.len()
            ==> sessions[#[trigger] chain[i]].head.fork_source() == Some(#[trigger] chain[j])
}

proof fn lemma_path_is_ancestry(
    sessions: Map<u128, SessionEntryView>,
    chain: Seq<u128>,
    from: int,
    to: int,
)
    requires
        is_fork_path(sessions, chain),
        0 <= from <= to < chain.len(),
    ensures
        fork_ancestor(sessions, chain[from], (to - from) as nat) == Some(chain[to]),
    decreases to - from,
{
    if from < to {
        lemma_path_is_ancestry(sessions, chain, from, to - 1);
        assert(sessions[chain[to - 1]].head.fork_source() == Some(chain[to]));
    }
}

/// The source of a Session, if it has one, is itself recovered.
spec fn source_resolves(sessions: Map<u128, SessionEntryView>, id: u128) -> bool {
    match sessions[id].head.fork_source() {
        Some(source) => sessions.contains_key(source),
        None => true,
    }
}

/// Nothing more has to be learned of a Session.
#[verifier::opaque]
spec fn is_finished(sessions: Map<u128, SessionEntryView>, id: u128) -> bool {
    fork_chain_ends(sessions, id) && source_resolves(sessions, id)
}

/// The marks of finished Sessions, whose chains are known to end.
spec fn marks_are_finished(
    sessions: Map<u128, SessionEntryView>,
    visits: Map<u128, ForkProvenanceVisit>,
) -> bool {
    &&& visits.dom().subset_of(sessions.dom())
    &&& forall|id: u128| #[trigger]
        visits.contains_key(id) ==> visits[id] is Done && is_finished(sessions, id)
}

/// The marks while one chain is walked.
spec fn marks_chain(
    sessions: Map<u128, SessionEntryView>,
    visits: Map<u128, ForkProvenanceVisit>,
    chain: Seq<u128>,
) -> bool {
    &&& visits.dom().subset_of(sessions.dom())
    &&& is_fork_path(sessions, chain)
    &&& forall|i: int|
        0 <= i < chain.len() ==> visits.contains_key(#[trigger] chain[i]) && visits[chain[i]]
            is Visiting && source_resolves(sessions, chain[i])
    &&& forall|id: u128| #[trigger]
        visits.contains_key(id) && visits[id] is Visiting ==> chain.contains(id)
    &&& forall|id: u128| #[trigger]
        visits.contains_key(id) && visits[id] is Done ==> is_finished(sessions, id)
}

proof fn lemma_marks_push(
    sessions: Map<u128, SessionEntryView>,
    visits: Map<u128, ForkProvenanceVisit>,
    chain: Seq<u128>,
    current: u128,
)
    requires
        marks_chain(sessions, visits, chain),
        sessions.contains_key(current),
        !visits.contains_key(current),
        source_resolves(sessions, current),
        chain.len() > 0 ==> sessions[chain.last()].head.fork_source() == Some(current),
    ensures
        marks_chain(
            sessions,
            visits.insert(current, ForkProvenanceVisit::Visiting),
            chain.push(current),
        ),
{
    let marked = visits.insert(current, ForkProvenanceVisit::Visiting);
    let pushed = chain.push(current);
    assert forall|i: int, j: int| 0 <= i < pushed.len() && j == i + 1 && j < pushed.len() implies
        sessions[#[trigger] pushed[i]].head.fork_source() == Some(#[trigger] pushed[j]) by {
        assert(chain[i] == pushed[i]);
        if j < chain.len() {
            assert(chain[j] == pushed[j]);
        }
    }
    assert forall|i: int| 0 <= i < pushed.len() implies marked.contains_key(#[trigger] pushed[i])
        && marked[pushed[i]] is Visiting && source_resolves(sessions, pushed[i]) by {
        if i < chain.len() {
            assert(chain[i] == pushed[i]);
        }
    }
    assert forall|id: u128| #[trigger] marked.contains_key(id) && marked[id] is Visiting implies
        pushed.contains(id) by {
        if id == current {
            assert(pushed[chain.len() as int] == id);
        } else {
            assert(visits.contains_key(id));
            let k = choose|k: int| 0 <= k < chain.len() && chain[k] == id;
            assert(pushed[k] == id);
        }
    }
    assert forall|id: u128| #[trigger] marked.contains_key(id) && marked[id] is Done implies
        is_finished(sessions, id) by {
        assert(visits.contains_key(id));
    }
}

proof fn lemma_walk_closes_a_cycle(
    sessions: Map<u128, SessionEntryView>,
    chain: Seq<u128>,
    current: u128,
)
    requires
        is_fork_path(sessions, chain),
        chain.contains(current),
        sessions.contains_key(current),
        sessions[chain.last()].head.fork_source() == Some(current),
    ensures
        !forks_are_acyclic(sessions),
{
    let k = choose|k: int| 0 <= k < chain.len() && chain[k] == current;
    let last = chain.len() - 1;
    lemma_path_is_ancestry(sessions, chain, k, last);
    let steps = (last - k) as nat;
    assert(fork_ancestor(sessions, current, steps) == Some(chain.last()));
    assert(fork_ancestor(sessions, current, steps + 1) == Some(current));
}

/// Once the last Session of a path has an ending chain behind it, so has every other one.
proof fn lemma_path_ends(sessions: Map<u128, SessionEntryView>, chain: Seq<u128>, from: int)
    requires
        is_fork_path(sessions, chain),
        0 <= from <= chain.len(),
        chain.len() > 0 ==> match sessions[chain.last()].head.fork_source() {
            Some(source) => fork_chain_ends(sessions, source),
            None => true,
        },
    ensures
        forall|i: int| from <= i < chain.len() ==> fork_chain_ends(sessions, #[trigger] chain[i]),
    decreases chain.len() - from,
{
    if from < chain.len() {
        lemma_path_ends(sessions, chain, from + 1);
        if from + 1 < chain.len() {
            assert(sessions[chain[from]].head.fork_source() == Some(chain[from + 1]));
        }
        lemma_chain_extends(sessions, chain[from]);
    }
}

proof fn lemma_walk_finishes(
    sessions: Map<u128, SessionEntryView>,
    visits: Map<u128, ForkProvenanceVisit>,
    chain: Seq<u128>,
)
    requires
        marks_chain(sessions, visits, chain),
        chain.len() > 0 ==> match sessions[chain.last()].head.fork_source() {
            Some(source) => fork_chain_ends(sessions, source),
            None => true,
        },
    ensures
        forall|id: u128| #[trigger] visits.contains_key(id) ==> is_finished(sessions, id),
{
    reveal(is_finished);
    lemma_path_ends(sessions, chain, 0);
    assert forall|id: u128| #[trigger] visits.contains_key(id) implies is_finished(
        sessions,
        id,
    ) by {
        if visits[id] is Visiting {
            let k = choose|k: int| 0 <= k < chain.len() && chain[k] == id;
            assert(fork_chain_ends(sessions, chain[k]));
        }
    }
}

fn fork_source_of(sessions: &SessionCatalog, id: u128) -> (source: Option<u128>)
    requires
        sessions@.contains_key(id),
    ensures
        source == session_models(sessions@)[id].head.fork_source(),
{
    match sessions.get(&id) {
        Some(entry) => match entry.current_head.fork_provenance() {
            Some(provenance) => Some(provenance.source_session_id.value()),
            None => None,
        },
        None => None,
    }
}

/// Walks the chain of one Session up to a finished one or to its end.
fn walk_fork_chain(
    sessions: &SessionCatalog,
    start: u128,
    visits: &mut BTreeMap<u128, ForkProvenanceVisit>,
) -> (result: Result<Vec<u128>, DurableOpenError>)
    requires
        sessions@.contains_key(start),
        marks_are_finished(session_models(sessions@), old(visits)@),
    ensures
        match result {
            Err(error) => error == DurableOpenError::DurableStateCorrupt && !fork_graph_is_sound(
                session_models(sessions@),
            ),
            Ok(chain) => {
                &&& marks_chain(session_models(sessions@), final(visits)@, chain@)
                &&& old(visits)@.dom().subset_of(final(visits)@.dom())
                &&& final(visits)@.contains_key(start)
                &&& forall|id: u128| #[trigger]
                    final(visits)@.contains_key(id) ==> is_finished(
                        session_models(sessions@),
                        id,
                    )
            },
        },
{
    let ghost models = session_models(sessions@);
    let mut chain: Vec<u128> = Vec::new();
    let mut current: u128 = start;
    proof {
        vstd::set_lib::lemma_len_subset(visits@.dom(), sessions@.dom());
    }
    loop
        invariant
            models == session_models(sessions@),
            sessions@.contains_key(current),
            marks_chain(models, visits@, chain@),
            old(visits)@.dom().subset_of(visits@.dom()),
            visits@.dom().len() <= sessions@.dom().len(),
            chain@.len() == 0 ==> current == start,
            chain@.len() > 0 ==> models[chain@.last()].head.fork_source() == Some(current)
                && visits@.contains_key(start),
        decreases sessions@.dom().len() - visits@.dom().len(),
    {
        match visits.get(&current) {
            Some(ForkProvenanceVisit::Visiting) => {
                proof {
                    assert(visits@.contains_key(current));
                    lemma_walk_closes_a_cycle(models, chain@, current);
                }
                return Err(DurableOpenError::DurableStateCorrupt);
            },
            Some(ForkProvenanceVisit::Done) => {
                proof {
                    assert(visits@.contains_key(current));
                    assert(fork_chain_ends(models, current)) by {
                        reveal(is_finished);
                    }
                    lemma_walk_finishes(models, visits@, chain@);
                }
                return Ok(chain);
            },
            None => {},
        }
        let source = fork_source_of(sessions, current);
        let resolves = match source {
            Some(source) => sessions.contains_key(&source),
            None => true,
        };
        if !resolves {
            proof {
                assert(models.contains_key(current));
                assert(!fork_sources_resolve(models));
            }
            return Err(DurableOpenError::DurableStateCorrupt);
        }
        proof {
            lemma_marks_push(models, visits@, chain@, current);
            let marked = visits@.dom().insert(current);
            assert(visits@.insert(current, ForkProvenanceVisit::Visiting).dom() =~= marked);
            vstd::set_lib::lemma_len_subset(marked, sessions@.dom());
        }
        visits.insert(current, ForkProvenanceVisit::Visiting);
        chain.push(current);
        match source {
            None => {
                proof {
                    lemma_walk_finishes(models, visits@, chain@);
                }
                return Ok(chain);
            },
            Some(source) => {
                current = source;
            },
        }
    }
}

/// Marks every Session of a walked chain as finished.
fn finish_fork_chain(
    chain: &Vec<u128>,
    visits: &mut BTreeMap<u128, ForkProvenanceVisit>,
    Ghost(sessions): Ghost<Map<u128, SessionEntryView>>,
)
    requires
        marks_chain(sessions, old(visits)@, chain@),
        forall|id: u128| #[trigger]
            old(visits)@.contains_key(id) ==> is_finished(sessions, id),
    ensures
        marks_are_finished(sessions, final(visits)@),
        final(visits)@.dom() == old(visits)@.dom(),
{
    let ghost walked = visits@;
    let mut j: usize = 0;
    while j < chain.len()
        invariant
            j <= chain@.len(),
            marks_chain(sessions, walked, chain@),
            visits@.dom() == walked.dom(),
            forall|k: int| 0 <= k < j ==> visits@[#[trigger] chain@[k]] is Done,
            forall|x: u128| #[trigger]
                walked.contains_key(x) && walked[x] is Done ==> visits@[x] is Done,
        decreases chain.len() - j,
    {
        let finished: u128 = chain[j];
        proof {
            assert(walked.contains_key(chain@[j as int]));
        }
        visits.insert(finished, ForkProvenanceVisit::Done);
        assert(visits@.dom() =~= walked.dom());
        j = j + 1;
    }
    proof {
        assert forall|x: u128| #[trigger] visits@.contains_key(x) implies visits@[x] is Done
            && is_finished(sessions, x) by {
            assert(walked.contains_key(x));
            if walked[x] is Visiting {
                let k = choose|k: int| 0 <= k < chain@.len() && chain@[k] == x;
                assert(visits@[chain@[k]] is Done);
            }
        }
    }
}

/// Validates published fork sources and detects cycles, without looking at a conversation.
pub fn validate_fork_provenance_references_and_cycles(sessions: &SessionCatalog) -> (result: Result<
    (),
    DurableOpenError,
>)
    ensures
        result == physical::checked(
            fork_graph_is_sound(session_models(sessions@)),
            DurableOpenError::DurableStateCorrupt,
        ),
        result is Ok ==> forall|id: u128| #[trigger]
            sessions@.contains_key(id) ==> fork_chain_ends(session_models(sessions@), id),
{
    let ghost models = session_models(sessions@);
    let ids = ascending_keys(sessions);
    let mut visits: BTreeMap<u128, ForkProvenanceVisit> = BTreeMap::new();
    let mut i: usize = 0;
    while i < ids.len()
        invariant
            i <= ids@.len(),
            models == session_models(sessions@),
            ids@.to_set() == sessions@.dom(),
            marks_are_finished(models, visits@),
            forall|k: int| 0 <= k < i ==> visits@.contains_key(#[trigger] ids@[k]),
        decreases ids.len() - i,
    {
        let id: u128 = ids[i];
        assert(ids@.to_set().contains(id));
        let chain = match walk_fork_chain(sessions, id, &mut visits) {
            Ok(chain) => chain,
            Err(error) => return Err(error),
        };
        finish_fork_chain(&chain, &mut visits, Ghost(models));
        i = i + 1;
    }
    proof {
        reveal(is_finished);
        assert forall|id: u128| #[trigger] sessions@.contains_key(id) implies fork_chain_ends(
            models,
            id,
        ) && source_resolves(models, id) by {
            assert(ids@.to_set().contains(id));
            let k = choose|k: int| 0 <= k < ids@.len() && ids@[k] == id;
            assert(visits@.contains_key(ids@[k]));
        }
        assert forall|id: u128, steps: nat| models.contains_key(id) && steps > 0 implies
            #[trigger] fork_ancestor(models, id, steps) != Some(id) by {
            assert(sessions@.contains_key(id));
            let end = choose|end: nat| #[trigger] fork_ancestor(models, id, end) is None;
            lemma_ending_chain_has_no_cycle(models, id, steps, end);
        }
        assert forall|id: u128| #[trigger] models.contains_key(id) implies source_resolves(
            models,
            id,
        ) by {
            assert(sessions@.contains_key(id));
        }
    }
    Ok(())
}

} // verus!
