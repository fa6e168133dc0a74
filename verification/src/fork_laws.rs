//! Which origins a set of Sessions may have.

use crate::fork;
use crate::session_chain::SessionEntryView;
use vstd::prelude::*;

verus! {

/// The source of a Session, read off its head.
pub open spec fn source_of(entry: SessionEntryView) -> Option<u128> {
    match entry.head.fork_provenance {
        Some(provenance) => Some(provenance.source_session_id@),
        None => None,
    }
}

proof fn lemma_same_ancestors(
    sessions: Map<u128, SessionEntryView>,
    others: Map<u128, SessionEntryView>,
    id: u128,
    steps: nat,
)
    requires
        fork::fork_sources_resolve(sessions),
        sessions.contains_key(id),
        forall|key: u128| #[trigger]
            sessions.contains_key(key) ==> others.contains_key(key) && source_of(others[key])
                == source_of(sessions[key]),
    ensures
        fork::fork_ancestor(others, id, steps) == fork::fork_ancestor(sessions, id, steps),
        fork::fork_ancestor(sessions, id, steps) matches Some(ancestor) ==> sessions.contains_key(
            ancestor,
        ),
    decreases steps,
{
    if steps > 0 {
        lemma_same_ancestors(sessions, others, id, (steps - 1) as nat);
    }
}

/// Sessions without origins are always sound; in particular none at all are.
pub proof fn law_unforked_sessions_are_sound(sessions: Map<u128, SessionEntryView>)
    requires
        forall|id: u128| #[trigger]
            sessions.contains_key(id) ==> sessions[id].head.fork_provenance is None,
    ensures
        fork::fork_graph_is_sound(sessions),
{
    assert forall|id: u128, steps: nat| sessions.contains_key(id) && steps > 0 implies
        #[trigger] fork::fork_ancestor(sessions, id, steps) != Some(id) by {
        lemma_unforked_walk_ends(sessions, id, steps);
    }
}

proof fn lemma_unforked_walk_ends(sessions: Map<u128, SessionEntryView>, id: u128, steps: nat)
    requires
        sessions.contains_key(id),
        sessions[id].head.fork_provenance is None,
        steps > 0,
    ensures
        fork::fork_ancestor(sessions, id, steps) is None,
    decreases steps,
{
    if steps == 1 {
        assert(fork::fork_ancestor(sessions, id, 0) == Some(id));
    } else {
        lemma_unforked_walk_ends(sessions, id, (steps - 1) as nat);
    }
}

/// Whether origins are sound depends on nothing but who was forked from whom: not on a lifecycle, a
/// name, a definition, the kind of a fork or its anchor.
pub proof fn law_only_the_sources_decide(
    sessions: Map<u128, SessionEntryView>,
    others: Map<u128, SessionEntryView>,
)
    requires
        sessions.dom() == others.dom(),
        forall|id: u128| #[trigger]
            sessions.contains_key(id) ==> source_of(others[id]) == source_of(sessions[id]),
    ensures
        fork::fork_graph_is_sound(sessions) <==> fork::fork_graph_is_sound(others),
{
    assert forall|id: u128| #[trigger] others.contains_key(id) == sessions.contains_key(id) by {
        assert(others.dom().contains(id) == sessions.dom().contains(id));
    }
    if fork::fork_graph_is_sound(sessions) {
        lemma_soundness_carries_over(sessions, others);
    }
    if fork::fork_graph_is_sound(others) {
        lemma_soundness_carries_over(others, sessions);
    }
}

proof fn lemma_soundness_carries_over(
    sessions: Map<u128, SessionEntryView>,
    others: Map<u128, SessionEntryView>,
)
    requires
        fork::fork_graph_is_sound(sessions),
        forall|id: u128| #[trigger] sessions.contains_key(id) == others.contains_key(id),
        forall|id: u128| #[trigger]
            sessions.contains_key(id) ==> source_of(others[id]) == source_of(sessions[id]),
    ensures
        fork::fork_graph_is_sound(others),
{
    assert forall|id: u128| #[trigger] others.contains_key(id) implies match others[id].head.fork_source() {
        Some(source) => others.contains_key(source),
        None => true,
    } by {
        assert(sessions.contains_key(id));
        match source_of(sessions[id]) {
            Some(source) => {
                assert(sessions.contains_key(source));
            },
            None => {},
        }
    }
    assert forall|id: u128, steps: nat| others.contains_key(id) && steps > 0 implies
        #[trigger] fork::fork_ancestor(others, id, steps) != Some(id) by {
        assert(sessions.contains_key(id));
        lemma_same_ancestors(sessions, others, id, steps);
        assert(fork::fork_ancestor(sessions, id, steps) != Some(id));
    }
}

/// One more Session keeps sound origins sound exactly if it is no fork or a fork of a Session that is
/// already there, whatever that one's lifecycle.
pub proof fn law_a_fork_of_a_known_session_is_sound(
    sessions: Map<u128, SessionEntryView>,
    id: u128,
    entry: SessionEntryView,
)
    requires
        fork::fork_graph_is_sound(sessions),
        !sessions.contains_key(id),
    ensures
        fork::fork_graph_is_sound(sessions.insert(id, entry)) <==> (
        entry.head.fork_provenance matches Some(provenance) ==> sessions.contains_key(
            provenance.source_session_id@,
        )),
{
    let more = sessions.insert(id, entry);
    assert forall|key: u128| #[trigger] sessions.contains_key(key) implies more.contains_key(key)
        && source_of(more[key]) == source_of(sessions[key]) by {}
    assert(more.contains_key(id));
    match source_of(entry) {
        None => {
            assert forall|key: u128, steps: nat| more.contains_key(key) && steps > 0 implies
                #[trigger] fork::fork_ancestor(more, key, steps) != Some(key) by {
                if key == id {
                    lemma_unforked_walk_ends(more, id, steps);
                } else {
                    lemma_same_ancestors(sessions, more, key, steps);
                    assert(fork::fork_ancestor(sessions, key, steps) != Some(key));
                }
            }
        },
        Some(source) => {
            if sessions.contains_key(source) {
                assert forall|key: u128, steps: nat| more.contains_key(key) && steps > 0 implies
                    #[trigger] fork::fork_ancestor(more, key, steps) != Some(key) by {
                    if key == id {
                        lemma_step_into(sessions, more, id, source, steps);
                    } else {
                        lemma_same_ancestors(sessions, more, key, steps);
                        assert(fork::fork_ancestor(sessions, key, steps) != Some(key));
                    }
                }
            } else {
                if fork::fork_graph_is_sound(more) {
                    assert(more.contains_key(source));
                    assert(fork::fork_ancestor(more, id, 0) == Some(id));
                    assert(fork::fork_ancestor(more, id, 1) == Some(id));
                }
            }
        },
    }
    if fork::forks_are_acyclic(more) && (source_of(entry) matches Some(source)
        ==> sessions.contains_key(source)) {
        assert forall|key: u128| #[trigger] more.contains_key(key) implies match more[key].head.fork_source() {
            Some(source) => more.contains_key(source),
            None => true,
        } by {
            if key != id {
                assert(sessions.contains_key(key));
            }
        }
    }
}

/// Behind its first step a new fork walks among the Sessions that were there before.
proof fn lemma_step_into(
    sessions: Map<u128, SessionEntryView>,
    more: Map<u128, SessionEntryView>,
    id: u128,
    source: u128,
    steps: nat,
)
    requires
        steps > 0,
        fork::fork_sources_resolve(sessions),
        !sessions.contains_key(id),
        sessions.contains_key(source),
        source_of(more[id]) == Some(source),
        forall|key: u128| #[trigger]
            sessions.contains_key(key) ==> more.contains_key(key) && source_of(more[key])
                == source_of(sessions[key]),
    ensures
        fork::fork_ancestor(more, id, steps) == fork::fork_ancestor(
            sessions,
            source,
            (steps - 1) as nat,
        ),
        fork::fork_ancestor(more, id, steps) != Some(id),
    decreases steps,
{
    lemma_same_ancestors(sessions, more, source, (steps - 1) as nat);
    if steps == 1 {
        assert(fork::fork_ancestor(more, id, 0) == Some(id));
    } else {
        lemma_step_into(sessions, more, id, source, (steps - 1) as nat);
        lemma_same_ancestors(sessions, more, source, (steps - 2) as nat);
    }
}

/// A Session forked from itself is unsound, and so are two that were forked from each other, and one
/// whose source is not there.
pub proof fn law_cycles_and_missing_sources_are_unsound(
    sessions: Map<u128, SessionEntryView>,
    id: u128,
    source: u128,
)
    requires
        sessions.contains_key(id),
        source_of(sessions[id]) == Some(source),
        source == id || !sessions.contains_key(source) || source_of(sessions[source]) == Some(id),
    ensures
        !fork::fork_graph_is_sound(sessions),
{
    assert(fork::fork_ancestor(sessions, id, 0) == Some(id));
    assert(fork::fork_ancestor(sessions, id, 1) == Some(source));
    if source != id && sessions.contains_key(source) {
        assert(fork::fork_ancestor(sessions, id, 2) == Some(id));
    }
}

/// The models of a catalog say everything in it.
pub proof fn law_session_models_are_complete(
    sessions: Map<u128, crate::session_chain::DurableSessionCatalogEntry>,
    id: u128,
)
    ensures
        fork::session_models(sessions).contains_key(id) <==> sessions.contains_key(id),
        sessions.contains_key(id) ==> fork::session_models(sessions)[id] == sessions[id]@,
{
}

} // verus!
