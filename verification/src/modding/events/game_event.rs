//! Typed game events and their dispatch to the handlers of their kind.
use vstd::prelude::*;

use super::action::{actions_applied, EventAction};
use super::filter::{filters_pass, EventFilter};
use super::handler::{EventHandler, EventHandlerView};
use super::kind::EventKind;
pub use super::GameEventInfo;

verus! {

/// A fired event of the kind `E`, carrying that kind's data.
pub struct GameEvent<E: EventKind> {
    pub(super) info: E::Info,
}

impl<E: EventKind> View for GameEvent<E> {
    type V = E::Info;

    /// The data that the event carries.
    closed spec fn view(&self) -> E::Info {
        self.info
    }
}

impl<E: EventKind> GameEvent<E> {
    /// Creates an event that carries the default data of its kind.
    pub fn new() -> (r: Self)
        where E::Info: Default,
        ensures
            call_ensures(E::Info::default, (), r@),
    {
        let info = E::Info::default();
        GameEvent { info }
    }

    /// Creates an event that carries the given data.
    pub fn with_info(info: E::Info) -> (r: Self)
        ensures
            r@ == info,
    {
        GameEvent { info }
    }

    /// The data that the event carries.
    pub fn info(&self) -> (r: &E::Info)
        ensures
            *r == self@,
    {
        &self.info
    }
}

impl<E: EventKind> Default for GameEvent<E> where E::Info: Default {
    /// An event that carries the default data of its kind, as `new` makes it.
    fn default() -> (r: Self)
        ensures
            call_ensures(E::Info::default, (), r@),
    {
        Self::new()
    }
}

/// The commands after one handler has seen the event: its actions ran if all its
/// filters passed, and nothing happened otherwise.
pub open spec fn handler_applied<C, F: EventFilter, A: EventAction<C>>(
    handler: EventHandlerView<F, A>,
    commands: C,
    info: GameEventInfo,
) -> C {
    if filters_pass(handler.filters, info) {
        actions_applied(handler.actions, commands, info)
    } else {
        commands
    }
}

/// The commands after every handler, first to last, has seen the event.
pub open spec fn event_dispatched<C, F: EventFilter, A: EventAction<C>>(
    handlers: Seq<EventHandlerView<F, A>>,
    commands: C,
    info: GameEventInfo,
) -> C
    decreases handlers.len(),
{
    if handlers.len() == 0 {
        commands
    } else {
        handler_applied(handlers.last(), event_dispatched(handlers.drop_last(), commands, info), info)
    }
}

/// The views of a sequence of handlers.
pub open spec fn handler_views<E, F, A>(handlers: Seq<&EventHandler<E, F, A>>) -> Seq<
    EventHandlerView<F, A>,
> {
    handlers.map_values(|h: &EventHandler<E, F, A>| h@)
}

/// Handles a fired event of the kind `E`, whose data `info` holds in serialized form:
/// every handler of that kind, first to last, runs its actions if all its filters pass.
pub fn on_game_event<E: EventKind, C, F: EventFilter, A: EventAction<C>>(
    info: &GameEventInfo,
    commands: &mut C,
    handlers: &Vec<&EventHandler<E, F, A>>,
)
    ensures
        *final(commands) == event_dispatched(handler_views(handlers@), *old(commands), *info),
{
    let n = handlers.len();
    let mut j: usize = 0;
    while j < n
        invariant
            n == handlers@.len(),
            0 <= j <= n,
            *commands == event_dispatched(
                handler_views(handlers@.take(j as int)),
                *old(commands),
                *info,
            ),
        decreases n - j,
    {
        let h: &EventHandler<E, F, A> = handlers[j];
        if h.filter(info) {
            h.run_actions(commands, info);
        }
        proof {
            let hv = handler_views(handlers@.take(j + 1));
            assert(hv.drop_last() == handler_views(handlers@.take(j as int)));
            assert(hv.last() == handlers@[j as int]@);
        }
        j = j + 1;
    }
    assert(handlers@.take(n as int) == handlers@);
}

/// A handler that one of its filters rejects issues no command.
pub proof fn lemma_rejected_event_issues_nothing<C, F: EventFilter, A: EventAction<C>>(
    handler: EventHandlerView<F, A>,
    commands: C,
    info: GameEventInfo,
    rejecting: int,
)
    requires
        0 <= rejecting < handler.filters.len(),
        !handler.filters[rejecting].spec_filter(info),
    ensures
        handler_applied(handler, commands, info) == commands,
{
}

/// A handler without filters runs its actions for every event of its kind.
pub proof fn lemma_unfiltered_handler_always_acts<C, F: EventFilter, A: EventAction<C>>(
    handler: EventHandlerView<F, A>,
    commands: C,
    info: GameEventInfo,
)
    requires
        handler.filters.len() == 0,
    ensures
        handler_applied(handler, commands, info) == actions_applied(handler.actions, commands, info),
{
}

/// Handlers do not stand in each other's way: dispatching to the handlers of `first`
/// and then to those of `second` issues the commands of both, in that order. A
/// handler that its filters reject skips only itself.
pub proof fn lemma_handlers_dispatch_one_after_another<C, F: EventFilter, A: EventAction<C>>(
    first: Seq<EventHandlerView<F, A>>,
    second: Seq<EventHandlerView<F, A>>,
    commands: C,
    info: GameEventInfo,
)
    ensures
        event_dispatched(first + second, commands, info) == event_dispatched(
            second,
            event_dispatched(first, commands, info),
            info,
        ),
    decreases second.len(),
{
    if second.len() == 0 {
        assert(first + second == first);
    } else {
        lemma_handlers_dispatch_one_after_another(first, second.drop_last(), commands, info);
        assert((first + second).drop_last() == first + second.drop_last());
        assert((first + second).last() == second.last());
    }
}

/// A single handler runs its actions, first to last, exactly when all its filters
/// pass; otherwise it issues nothing.
pub proof fn lemma_single_handler_dispatch<C, F: EventFilter, A: EventAction<C>>(
    handler: EventHandlerView<F, A>,
    commands: C,
    info: GameEventInfo,
)
    ensures
        filters_pass(handler.filters, info) ==> event_dispatched(seq![handler], commands, info)
            == actions_applied(handler.actions, commands, info),
        !filters_pass(handler.filters, info) ==> event_dispatched(seq![handler], commands, info)
            == commands,
{
    assert(seq![handler].drop_last() =~= Seq::<EventHandlerView<F, A>>::empty());
    assert(seq![handler].last() == handler);
    assert(event_dispatched(Seq::<EventHandlerView<F, A>>::empty(), commands, info) == commands);
}

/// A handler's actions run one after another: running the actions of `first` and
/// then those of `second` issues the commands of both, in that order; a single action
/// issues just its own.
pub proof fn lemma_typed_actions_run_one_after_another<C, A: EventAction<C>>(
    first: Seq<A>,
    second: Seq<A>,
    commands: C,
    info: GameEventInfo,
)
    ensures
        actions_applied(first + second, commands, info) == actions_applied(
            second,
            actions_applied(first, commands, info),
            info,
        ),
        forall|action: A| #[trigger] actions_applied(seq![action], commands, info) == action.spec_action(commands, info),
    decreases second.len(),
{
    assert forall|action: A| #[trigger] actions_applied(seq![action], commands, info) == action.spec_action(commands, info) by {
        assert(seq![action].drop_last() =~= Seq::<A>::empty());
        assert(actions_applied(Seq::<A>::empty(), commands, info) == commands);
    }
    if second.len() == 0 {
        assert(first + second == first);
    } else {
        lemma_typed_actions_run_one_after_another(first, second.drop_last(), commands, info);
        assert((first + second).drop_last() == first + second.drop_last());
        assert((first + second).last() == second.last());
    }
}

/// The filters of `first` followed by those of `second` pass exactly when both groups
/// pass.
pub proof fn lemma_typed_filters_pass_together<F: EventFilter>(first: Seq<F>, second: Seq<F>, info: GameEventInfo)
    ensures
        filters_pass(first + second, info) == (filters_pass(first, info) && filters_pass(second, info)),
{
    let all = first + second;
    if filters_pass(first, info) && filters_pass(second, info) {
        assert forall|i: int| 0 <= i < all.len() implies #[trigger] all[i].spec_filter(info) by {
            if i < first.len() {
                assert(all[i] == first[i]);
            } else {
                assert(all[i] == second[i - first.len()]);
            }
        }
    }
    if filters_pass(all, info) {
        assert forall|i: int| 0 <= i < first.len() implies #[trigger] first[i].spec_filter(info) by {
            assert(all[i] == first[i]);
        }
        assert forall|i: int| 0 <= i < second.len() implies #[trigger] second[i].spec_filter(info) by {
            assert(all[first.len() + i] == second[i]);
        }
    }
}

} // verus!
