//! An open store over any number of requests: what was answered once stays readable.

use crate::actor;
use crate::actor::{OwnerInput, OwnerModel};
use crate::agent_chain::AgentEntryView;
use crate::catalog::DurableCatalogView;
use crate::open_error::DurableAgentCreateError;
use crate::publication_check::PublicationResultView;
use crate::reservation;
use crate::reservation::{AgentReservation, AgentReservationEvent, ReservationInventoryView};
use vstd::prelude::*;

verus! {

/// An open store: its owner, the reserved Agent identities, and what was recovered.
pub struct StoreHistory {
    pub owner: OwnerModel,
    pub inventory: ReservationInventoryView,
    pub recovered: DurableCatalogView,
    /// For every answer, the Agent that the request made.
    pub made: Seq<Option<AgentEntryView>>,
}

/// One input of the owner. Where it ends a request, the search is the one made for that request.
pub struct StoreTurn {
    pub input: OwnerInput,
    pub search: Seq<AgentReservationEvent>,
}

impl StoreHistory {
    /// A store that has just been opened: every recovered Agent is reserved.
    pub open spec fn is_new(self) -> bool {
        &&& self.owner.is_new()
        &&& self.owner.published == Map::<u128, AgentEntryView>::empty()
        &&& self.made == Seq::<Option<AgentEntryView>>::empty()
        &&& forall|id: u128| #[trigger]
            self.recovered.agents.contains_key(id) ==> self.inventory.contains(id)
    }

    /// What readers see.
    pub open spec fn catalog(self) -> DurableCatalogView {
        DurableCatalogView { published_agents: self.owner.published, ..self.recovered }
    }

    /// The Agent that an input makes.
    pub open spec fn making(self, input: OwnerInput) -> Option<AgentEntryView> {
        match input {
            OwnerInput::Finish(PublicationResultView::Published { entry, .. }) => if self.owner.ends_request(input) {
                Some(entry)
            } else {
                None
            },
            _ => None,
        }
    }

    /// Whether a turn makes no Agent, or one whose identity its search handed out.
    pub open spec fn allows(self, turn: StoreTurn) -> bool {
        match self.making(turn.input) {
            Some(entry) => reservation::search_after(self.inventory, turn.search).state matches
                AgentReservation::Finished(Ok(id)) && id@ == entry.head.agent_id,
            None => true,
        }
    }

    /// The store after a turn. Of the requests that it answers, the current one comes first.
    pub open spec fn after(self, turn: StoreTurn) -> Self {
        let owner = self.owner.after(turn.input);
        StoreHistory {
            owner,
            inventory: if self.owner.ends_request(turn.input) {
                reservation::search_after(self.inventory, turn.search).inventory
            } else {
                self.inventory
            },
            recovered: self.recovered,
            made: self.made + Seq::new(
                (owner.answered.len() - self.owner.answered.len()) as nat,
                |i: int|
                    if i == 0 {
                        self.making(turn.input)
                    } else {
                        None
                    },
            ),
        }
    }

    /// What holds at all times: every request that was answered with an Agent made that Agent, which
    /// is what readers see under its identity; no two requests made the same Agent; and whatever can
    /// be read is reserved.
    pub open spec fn is_sound(self) -> bool {
        let answered = self.owner.answered;
        &&& self.made.len() == answered.len()
        &&& forall|i: int|
            0 <= i < answered.len() ==> match (#[trigger] answered[i]).1 {
                Ok(id) => self.made[i] matches Some(entry) && entry.head.agent_id == id
                    && self.owner.published.contains_key(id) && self.owner.published[id] == entry,
                Err(_) => self.made[i] is None,
            }
        &&& forall|i: int, j: int|
            0 <= i < j < answered.len() && (#[trigger] answered[i]).1 is Ok ==> answered[i].1 != (
            #[trigger] answered[j]).1
        &&& forall|id: u128| #[trigger]
            self.owner.published.contains_key(id) ==> self.inventory.contains(id)
                && !self.recovered.agents.contains_key(id)
        &&& forall|id: u128| #[trigger]
            self.recovered.agents.contains_key(id) ==> self.inventory.contains(id)
    }

    /// Whether a later store still has every answer, and every Agent as it was.
    pub open spec fn is_kept_by(self, later: Self) -> bool {
        &&& self.owner.answered.len() <= later.owner.answered.len()
        &&& self.made.len() <= later.made.len()
        &&& forall|i: int|
            0 <= i < self.owner.answered.len() ==> #[trigger] later.owner.answered[i]
                == self.owner.answered[i]
        &&& forall|i: int|
            0 <= i < self.made.len() ==> #[trigger] later.made[i] == self.made[i]
        &&& forall|id: u128| #[trigger]
            self.catalog().agent(id) is Some ==> later.catalog().agent(id) == self.catalog().agent(
                id,
            )
    }
}

/// The store after a sequence of turns.
pub open spec fn history_after(start: StoreHistory, turns: Seq<StoreTurn>) -> StoreHistory
    decreases turns.len(),
{
    if turns.len() == 0 {
        start
    } else {
        history_after(start, turns.drop_last()).after(turns.last())
    }
}

/// Whether every identity that is published was handed out by the search of its own request.
pub open spec fn publishes_what_it_reserved(start: StoreHistory, turns: Seq<StoreTurn>) -> bool
    decreases turns.len(),
{
    turns.len() > 0 ==> {
        &&& publishes_what_it_reserved(start, turns.drop_last())
        &&& history_after(start, turns.drop_last()).allows(turns.last())
    }
}

proof fn lemma_turn(store: StoreHistory, turn: StoreTurn)
    requires
        store.is_sound(),
        store.allows(turn),
    ensures
        store.after(turn).is_sound(),
        store.is_kept_by(store.after(turn)),
{
    let after = store.after(turn);
    let count = store.owner.answered.len();
    actor::lemma_answers_only_grow(store.owner, turn.input);
    reservation::law_search_hands_out_a_free_identity(store.inventory, turn.search);
    assert forall|i: int| 0 <= i < store.made.len() implies #[trigger] after.made[i]
        == store.made[i] by {}
    match store.making(turn.input) {
        Some(entry) => {
            let id = entry.head.agent_id;
            assert(!store.inventory.contains(id));
            assert(after.owner.published == store.owner.published.insert(id, entry));
            assert(after.owner.answered[count as int].1 == Ok::<u128, DurableAgentCreateError>(id));
            assert(after.made[count as int] == Some(entry));
        },
        None => {
            assert(after.owner.published == store.owner.published);
        },
    }
}

proof fn lemma_sound(start: StoreHistory, turns: Seq<StoreTurn>)
    requires
        start.is_new(),
        publishes_what_it_reserved(start, turns),
    ensures
        history_after(start, turns).is_sound(),
    decreases turns.len(),
{
    if turns.len() > 0 {
        lemma_sound(start, turns.drop_last());
        lemma_turn(history_after(start, turns.drop_last()), turns.last());
    }
}

proof fn lemma_kept(start: StoreHistory, turns: Seq<StoreTurn>, more: Seq<StoreTurn>)
    requires
        start.is_new(),
        publishes_what_it_reserved(start, turns + more),
    ensures
        publishes_what_it_reserved(start, turns),
        history_after(start, turns).is_kept_by(history_after(start, turns + more)),
    decreases more.len(),
{
    if more.len() == 0 {
        assert(turns + more =~= turns);
    } else {
        let all = turns + more;
        assert(all.drop_last() =~= turns + more.drop_last());
        lemma_kept(start, turns, more.drop_last());
        lemma_sound(start, all.drop_last());
        let now = history_after(start, turns);
        let before = history_after(start, all.drop_last());
        let then = history_after(start, all);
        lemma_turn(before, all.last());
        assert forall|i: int| 0 <= i < now.owner.answered.len() implies #[trigger] then.owner.answered[i]
            == now.owner.answered[i] by {
            assert(before.owner.answered[i] == now.owner.answered[i]);
        }
        assert forall|i: int| 0 <= i < now.made.len() implies #[trigger] then.made[i]
            == now.made[i] by {
            assert(before.made[i] == now.made[i]);
        }
    }
}

/// A created Agent stays readable: a request that is answered with an identity made the Agent that
/// readers see under that identity from then on, whatever is requested later. No other request is
/// answered with the same identity, and no Agent that could be read at any time changes or is lost.
pub proof fn law_created_agents_stay_readable(
    start: StoreHistory,
    turns: Seq<StoreTurn>,
    more: Seq<StoreTurn>,
)
    requires
        start.is_new(),
        publishes_what_it_reserved(start, turns + more),
    ensures
        ({
            let now = history_after(start, turns);
            let later = history_after(start, turns + more);
            &&& now.is_sound()
            &&& later.is_sound()
            &&& now.is_kept_by(later)
            &&& forall|i: int|
                0 <= i < now.owner.answered.len() ==> ((#[trigger] now.owner.answered[i]).1 matches Ok(
                    id,
                ) ==> now.made[i] is Some && now.catalog().agent(id) == now.made[i]
                    && later.catalog().agent(id) == now.made[i])
        }),
{
    lemma_kept(start, turns, more);
    lemma_sound(start, turns);
    lemma_sound(start, turns + more);
}

} // verus!
