//! A generic, extensible event system for games.
//!
//! Fired events are queued; processing the queue applies, for each event in the
//! order it was fired, every handler whose name matches the event and whose filters
//! all pass, by running that handler's actions in order on the game world.
use std::collections::VecDeque;
use std::marker::PhantomData;
use vstd::prelude::*;

use crate::text::str_equal;

pub mod action;
pub mod filter;
pub mod game_event;
pub mod handler;
pub mod kind;

pub use kind::EventKind;

verus! {

#[verifier::external_type_specification]
#[verifier::external_body]
pub struct ExJsonValue(serde_json::Value);

/// Event data wrapper.
#[derive(Clone, Debug)]
pub struct GameEventInfo {
    /// Optional serialized data for the event.
    pub data: Option<serde_json::Value>,
}

impl Default for GameEventInfo {
    fn default() -> (r: GameEventInfo)
        ensures
            r.data is None,
    {
        GameEventInfo { data: None }
    }
}

/// A filter that decides whether an event triggers a handler's actions.
///
/// Implemented by the game. The filter's answer is taken to depend on the world and
/// the event data alone.
pub trait EventFilter<W> {
    /// Whether the event passes this filter in the given world. The default leaves it
    /// unspecified; a filter whose `filter` is verified states it here.
    open spec fn spec_filter(&self, world: W, info: GameEventInfo) -> bool {
        arbitrary()
    }

    /// Returns true if the event passes the filter.
    fn filter(&self, world: &W, info: &GameEventInfo) -> (r: bool)
        ensures
            r == self.spec_filter(*world, *info),
    ;

    /// Returns the name of the filter.
    fn name(&self) -> &'static str;
}

/// An action performed on the world in response to an event.
///
/// Implemented by the game. The new world is taken to depend on the old world and
/// the event data alone.
pub trait EventAction<W> {
    /// The world after the action is performed. The default leaves it unspecified; an
    /// action whose `action` is verified states it here.
    open spec fn spec_action(&self, world: W, info: GameEventInfo) -> W {
        arbitrary()
    }

    /// Executes the action on the given world using the event info.
    fn action(&self, world: &mut W, info: &GameEventInfo)
        ensures
            *final(world) == self.spec_action(*old(world), *info),
    ;

    /// Returns the name of the action.
    fn name(&self) -> &'static str;
}

/// A boxed filter is a filter: handlers can then hold filters of different types,
/// as `Box<dyn EventFilter<W>>`.
impl<W, T: EventFilter<W> + ?Sized> EventFilter<W> for Box<T> {
    open spec fn spec_filter(&self, world: W, info: GameEventInfo) -> bool {
        (**self).spec_filter(world, info)
    }

    fn filter(&self, world: &W, info: &GameEventInfo) -> (r: bool) {
        (**self).filter(world, info)
    }

    fn name(&self) -> &'static str {
        (**self).name()
    }
}

/// A boxed action is an action: handlers can then hold actions of different types,
/// as `Box<dyn EventAction<W>>`.
impl<W, T: EventAction<W> + ?Sized> EventAction<W> for Box<T> {
    open spec fn spec_action(&self, world: W, info: GameEventInfo) -> W {
        (**self).spec_action(world, info)
    }

    fn action(&self, world: &mut W, info: &GameEventInfo) {
        (**self).action(world, info)
    }

    fn name(&self) -> &'static str {
        (**self).name()
    }
}

/// A handler for the events of one kind: filters, then actions.
pub struct EventHandler<W, F, A> {
    name: &'static str,
    filters: Vec<F>,
    actions: Vec<A>,
    marker: PhantomData<W>,
}

/// What a handler is: the name of the kind it handles, its filters and its actions.
pub struct EventHandlerView<F, A> {
    pub name: Seq<char>,
    pub filters: Seq<F>,
    pub actions: Seq<A>,
}

impl<W, F, A> View for EventHandler<W, F, A> {
    type V = EventHandlerView<F, A>;

    closed spec fn view(&self) -> EventHandlerView<F, A> {
        EventHandlerView { name: self.name@, filters: self.filters@, actions: self.actions@ }
    }
}

/// Every filter lets the event through.
pub open spec fn filters_pass<W, F: EventFilter<W>>(
    filters: Seq<F>,
    world: W,
    info: GameEventInfo,
) -> bool {
    forall|i: int| 0 <= i < filters.len() ==> #[trigger] filters[i].spec_filter(world, info)
}

/// The world after the actions are run, first to last.
pub open spec fn actions_applied<W, A: EventAction<W>>(
    actions: Seq<A>,
    world: W,
    info: GameEventInfo,
) -> W
    decreases actions.len(),
{
    if actions.len() == 0 {
        world
    } else {
        actions.last().spec_action(actions_applied(actions.drop_last(), world, info), info)
    }
}

impl<W, F, A> EventHandler<W, F, A> {
    /// Creates a handler with no filters and no actions for the event kind `E`.
    pub fn new<E: EventKind>() -> (r: Self)
        ensures
            r@.name == E::spec_name(),
            r@.filters == Seq::<F>::empty(),
            r@.actions == Seq::<A>::empty(),
    {
        EventHandler { name: E::name(), filters: Vec::new(), actions: Vec::new(), marker: PhantomData }
    }

    /// Adds a filter to the handler (builder-style).
    pub fn with_filter(self, f: F) -> (r: Self)
        ensures
            r@.name == self@.name,
            r@.filters == self@.filters.push(f),
            r@.actions == self@.actions,
    {
        let mut h = self;
        h.filters.push(f);
        h
    }

    /// Adds a filter to the handler.
    pub fn add_filter(&mut self, f: F)
        ensures
            final(self)@.name == old(self)@.name,
            final(self)@.filters == old(self)@.filters.push(f),
            final(self)@.actions == old(self)@.actions,
    {
        self.filters.push(f);
    }

    /// Adds an action to the handler (builder-style).
    pub fn with_action(self, a: A) -> (r: Self)
        ensures
            r@.name == self@.name,
            r@.filters == self@.filters,
            r@.actions == self@.actions.push(a),
    {
        let mut h = self;
        h.actions.push(a);
        h
    }

    /// Adds an action to the handler.
    pub fn add_action(&mut self, a: A)
        ensures
            final(self)@.name == old(self)@.name,
            final(self)@.filters == old(self)@.filters,
            final(self)@.actions == old(self)@.actions.push(a),
    {
        self.actions.push(a);
    }

    /// Checks if the event passes all filters.
    pub fn filter(&self, world: &W, info: &GameEventInfo) -> (r: bool)
        where F: EventFilter<W>,
        ensures
            r == filters_pass(self@.filters, *world, *info),
    {
        let n = self.filters.len();
        let mut i: usize = 0;
        while i < n
            invariant
                n == self.filters@.len(),
                0 <= i <= n,
                forall|j: int| 0 <= j < i ==> #[trigger] self.filters@[j].spec_filter(*world, *info),
            decreases n - i,
        {
            if !self.filters[i].filter(world, info) {
                return false;
            }
            i = i + 1;
        }
        true
    }
}

/// A fired game event: the name of its kind and its data.
#[derive(Clone, Debug)]
pub struct GameEvent {
    name: &'static str,
    info: GameEventInfo,
}

/// What an event is: the name of its kind and its data.
pub struct GameEventView {
    pub name: Seq<char>,
    pub info: GameEventInfo,
}

impl View for GameEvent {
    type V = GameEventView;

    closed spec fn view(&self) -> GameEventView {
        GameEventView { name: self.name@, info: self.info }
    }
}

impl GameEvent {
    /// Creates a new game event with the given name and info.
    pub fn new(name: &'static str, info: GameEventInfo) -> (r: GameEvent)
        ensures
            r@.name == name@,
            r@.info == info,
    {
        GameEvent { name, info }
    }
}

/// The queue of game events that wait to be processed against a world of type `W`.
pub struct GameEventQueue<W> {
    pub events: VecDeque<GameEvent>,
    pub _marker: PhantomData<W>,
}

impl<W> Default for GameEventQueue<W> {
    fn default() -> (r: GameEventQueue<W>)
        ensures
            r.events@.len() == 0,
    {
        GameEventQueue { events: VecDeque::new(), _marker: PhantomData }
    }
}

/// The views of a sequence of handlers.
pub open spec fn handler_views<W, F, A>(handlers: Seq<&EventHandler<W, F, A>>) -> Seq<
    EventHandlerView<F, A>,
> {
    handlers.map_values(|h: &EventHandler<W, F, A>| h@)
}

/// The views of a sequence of events.
pub open spec fn event_views(events: Seq<GameEvent>) -> Seq<GameEventView> {
    events.map_values(|e: GameEvent| e@)
}

/// The world after one handler has seen the event: its actions ran if it handles the
/// event's kind and all its filters passed, and nothing happened otherwise.
pub open spec fn handler_applied<W, F: EventFilter<W>, A: EventAction<W>>(
    handler: EventHandlerView<F, A>,
    world: W,
    event: GameEventView,
) -> W {
    if handler.name == event.name && filters_pass(handler.filters, world, event.info) {
        actions_applied(handler.actions, world, event.info)
    } else {
        world
    }
}

/// The world after every handler, first to last, has seen the event.
pub open spec fn event_handled<W, F: EventFilter<W>, A: EventAction<W>>(
    handlers: Seq<EventHandlerView<F, A>>,
    world: W,
    event: GameEventView,
) -> W
    decreases handlers.len(),
{
    if handlers.len() == 0 {
        world
    } else {
        handler_applied(handlers.last(), event_handled(handlers.drop_last(), world, event), event)
    }
}

/// The world after the events, first to last, have been handled.
pub open spec fn events_processed<W, F: EventFilter<W>, A: EventAction<W>>(
    events: Seq<GameEventView>,
    handlers: Seq<EventHandlerView<F, A>>,
    world: W,
) -> W
    decreases events.len(),
{
    if events.len() == 0 {
        world
    } else {
        event_handled(handlers, events_processed(events.drop_last(), handlers, world), events.last())
    }
}

/// Returns true if the event queue is empty.
pub fn is_queue_empty<W>(queue: &GameEventQueue<W>) -> (r: bool)
    ensures
        r == (queue.events@.len() == 0),
{
    queue.events.len() == 0
}

/// Whether the queue must be processed this frame: when events wait in it or the
/// world has changed since the last frame.
pub fn queue_should_run<W>(queue: &GameEventQueue<W>, world_changed: bool) -> (r: bool)
    ensures
        r == (queue.events@.len() > 0 || world_changed),
{
    !is_queue_empty(queue) || world_changed
}

/// Pushes a fired event at the back of the queue.
pub fn on_game_event<W>(event: GameEvent, queue: &mut GameEventQueue<W>)
    ensures
        final(queue).events@ == old(queue).events@.push(event),
{
    queue.events.push_back(event);
}

/// Runs the actions of one handler, first to last.
fn run_actions<W, F, A: EventAction<W>>(
    handler: &EventHandler<W, F, A>,
    world: &mut W,
    info: &GameEventInfo,
)
    ensures
        *final(world) == actions_applied(handler@.actions, *old(world), *info),
{
    let n = handler.actions.len();
    let mut i: usize = 0;
    while i < n
        invariant
            n == handler.actions@.len(),
            0 <= i <= n,
            *world == actions_applied(handler.actions@.take(i as int), *old(world), *info),
        decreases n - i,
    {
        assert(handler.actions@.take(i + 1).drop_last() == handler.actions@.take(i as int));
        handler.actions[i].action(world, info);
        i = i + 1;
    }
    assert(handler.actions@.take(n as int) == handler.actions@);
}

/// Lets every handler, first to last, see one event.
fn handle_event<W, F: EventFilter<W>, A: EventAction<W>>(
    handlers: &Vec<&EventHandler<W, F, A>>,
    world: &mut W,
    event: &GameEvent,
)
    ensures
        *final(world) == event_handled(handler_views(handlers@), *old(world), event@),
{
    let n = handlers.len();
    let mut j: usize = 0;
    while j < n
        invariant
            n == handlers@.len(),
            0 <= j <= n,
            *world == event_handled(handler_views(handlers@.take(j as int)), *old(world), event@),
        decreases n - j,
    {
        let ghost before = *world;
        let h: &EventHandler<W, F, A> = handlers[j];
        if str_equal(h.name, event.name) && h.filter(world, &event.info) {
            run_actions(h, world, &event.info);
        }
        proof {
            let hv = handler_views(handlers@.take(j + 1));
            assert(hv.drop_last() == handler_views(handlers@.take(j as int)));
            assert(hv.last() == handlers@[j as int]@);
        }
        j = j + 1;
    }
    assert(handlers@.take(n as int) == handlers@);
}

/// Processes the event queue: every event, in the order it was fired, is seen by
/// every handler; the queue is left empty.
pub fn queue_system<W, F: EventFilter<W>, A: EventAction<W>>(
    queue: &mut GameEventQueue<W>,
    world: &mut W,
    handlers: &Vec<&EventHandler<W, F, A>>,
)
    ensures
        final(queue).events@.len() == 0,
        *final(world) == events_processed(
            event_views(old(queue).events@),
            handler_views(handlers@),
            *old(world),
        ),
{
    let ghost all = queue.events@;
    let ghost mut done: int = 0;
    loop
        invariant
            0 <= done <= all.len(),
            queue.events@ == all.skip(done),
            *world == events_processed(
                event_views(all.take(done)),
                handler_views(handlers@),
                *old(world),
            ),
        ensures
            queue.events@.len() == 0,
            *world == events_processed(event_views(all), handler_views(handlers@), *old(world)),
        decreases queue.events@.len(),
    {
        match queue.events.pop_front() {
            Some(event) => {
                proof {
                    assert(event == all[done]);
                }
                handle_event(handlers, world, &event);
                proof {
                    let ev = event_views(all.take(done + 1));
                    assert(ev.drop_last() == event_views(all.take(done)));
                    assert(ev.last() == event@);
                    done = done + 1;
                    assert(queue.events@ == all.skip(done));
                }
            },
            None => {
                proof {
                    assert(done == all.len());
                    assert(all.take(done) == all);
                }
                break;
            },
        }
    }
}

/// Processing a queue that holds the events of `first` followed by those of `second`
/// leaves the world as processing `first`, then `second`, one after the other does:
/// events are handled in the order they were fired, and none is lost or handled twice
/// when the queue is processed in several passes.
pub proof fn lemma_events_processed_in_batches<W, F: EventFilter<W>, A: EventAction<W>>(
    first: Seq<GameEventView>,
    second: Seq<GameEventView>,
    handlers: Seq<EventHandlerView<F, A>>,
    world: W,
)
    ensures
        events_processed(first + second, handlers, world) == events_processed(
            second,
            handlers,
            events_processed(first, handlers, world),
        ),
    decreases second.len(),
{
    if second.len() == 0 {
        assert(first + second == first);
    } else {
        lemma_events_processed_in_batches(first, second.drop_last(), handlers, world);
        assert((first + second).drop_last() == first + second.drop_last());
        assert((first + second).last() == second.last());
    }
}

/// An event that no handler listens to leaves the world unchanged.
pub proof fn lemma_unhandled_event_keeps_world<W, F: EventFilter<W>, A: EventAction<W>>(
    handlers: Seq<EventHandlerView<F, A>>,
    world: W,
    event: GameEventView,
)
    requires
        forall|i: int| 0 <= i < handlers.len() ==> #[trigger] handlers[i].name != event.name,
    ensures
        event_handled(handlers, world, event) == world,
    decreases handlers.len(),
{
    if handlers.len() > 0 {
        assert(handlers.last() == handlers[handlers.len() - 1]);
        lemma_unhandled_event_keeps_world(handlers.drop_last(), world, event);
    }
}

/// A handler that one of its filters rejects in the current world does nothing.
pub proof fn lemma_rejected_event_keeps_world<W, F: EventFilter<W>, A: EventAction<W>>(
    handler: EventHandlerView<F, A>,
    world: W,
    event: GameEventView,
    rejecting: int,
)
    requires
        0 <= rejecting < handler.filters.len(),
        !handler.filters[rejecting].spec_filter(world, event.info),
    ensures
        handler_applied(handler, world, event) == world,
{
}

/// A handler without actions never changes the world.
pub proof fn lemma_handler_without_actions_keeps_world<W, F: EventFilter<W>, A: EventAction<W>>(
    handler: EventHandlerView<F, A>,
    world: W,
    event: GameEventView,
)
    requires
        handler.actions.len() == 0,
    ensures
        handler_applied(handler, world, event) == world,
{
}

/// Handlers do not stand in each other's way: letting the handlers of `first` and
/// then those of `second` see an event leaves the world as letting `second` see it
/// in the world that `first` left. Every handler acts or not by its own name and
/// filters, whatever the handlers before it did.
pub proof fn lemma_handlers_act_one_after_another<W, F: EventFilter<W>, A: EventAction<W>>(
    first: Seq<EventHandlerView<F, A>>,
    second: Seq<EventHandlerView<F, A>>,
    world: W,
    event: GameEventView,
)
    ensures
        event_handled(first + second, world, event) == event_handled(
            second,
            event_handled(first, world, event),
            event,
        ),
    decreases second.len(),
{
    if second.len() == 0 {
        assert(first + second == first);
    } else {
        lemma_handlers_act_one_after_another(first, second.drop_last(), world, event);
        assert((first + second).drop_last() == first + second.drop_last());
        assert((first + second).last() == second.last());
    }
}

/// A single handler runs its actions, first to last, exactly when it handles the
/// event's kind and all its filters pass in the world as it is; otherwise the world
/// stays as it is.
pub proof fn lemma_single_handler<W, F: EventFilter<W>, A: EventAction<W>>(
    handler: EventHandlerView<F, A>,
    world: W,
    event: GameEventView,
)
    ensures
        handler.name == event.name && filters_pass(handler.filters, world, event.info) ==> event_handled(
            seq![handler],
            world,
            event,
        ) == actions_applied(handler.actions, world, event.info),
        !(handler.name == event.name && filters_pass(handler.filters, world, event.info)) ==> event_handled(
            seq![handler],
            world,
            event,
        ) == world,
{
    assert(seq![handler].drop_last() =~= Seq::<EventHandlerView<F, A>>::empty());
    assert(seq![handler].last() == handler);
    assert(event_handled(Seq::<EventHandlerView<F, A>>::empty(), world, event) == world);
}

/// A handler's actions run one after another: running the actions of `first` and
/// then those of `second` leaves the world as running `second` on the world that
/// `first` left; a single action is just that action.
pub proof fn lemma_actions_run_one_after_another<W, A: EventAction<W>>(
    first: Seq<A>,
    second: Seq<A>,
    world: W,
    info: GameEventInfo,
)
    ensures
        actions_applied(first + second, world, info) == actions_applied(
            second,
            actions_applied(first, world, info),
            info,
        ),
        forall|action: A| #[trigger] actions_applied(seq![action], world, info) == action.spec_action(world, info),
    decreases second.len(),
{
    assert forall|action: A| #[trigger] actions_applied(seq![action], world, info) == action.spec_action(world, info) by {
        assert(seq![action].drop_last() =~= Seq::<A>::empty());
        assert(actions_applied(Seq::<A>::empty(), world, info) == world);
    }
    if second.len() == 0 {
        assert(first + second == first);
    } else {
        lemma_actions_run_one_after_another(first, second.drop_last(), world, info);
        assert((first + second).drop_last() == first + second.drop_last());
        assert((first + second).last() == second.last());
    }
}

/// The filters of `first` followed by those of `second` pass exactly when both groups
/// pass: every filter must let the event through, whatever order they come in.
pub proof fn lemma_filters_pass_together<W, F: EventFilter<W>>(
    first: Seq<F>,
    second: Seq<F>,
    world: W,
    info: GameEventInfo,
)
    ensures
        filters_pass(first + second, world, info) == (filters_pass(first, world, info) && filters_pass(
            second,
            world,
            info,
        )),
{
    let all = first + second;
    if filters_pass(first, world, info) && filters_pass(second, world, info) {
        assert forall|i: int| 0 <= i < all.len() implies #[trigger] all[i].spec_filter(world, info) by {
            if i < first.len() {
                assert(all[i] == first[i]);
            } else {
                assert(all[i] == second[i - first.len()]);
            }
        }
    }
    if filters_pass(all, world, info) {
        assert forall|i: int| 0 <= i < first.len() implies #[trigger] first[i].spec_filter(world, info) by {
            assert(all[i] == first[i]);
        }
        assert forall|i: int| 0 <= i < second.len() implies #[trigger] second[i].spec_filter(world, info) by {
            assert(all[first.len() + i] == second[i]);
        }
    }
}

/// Processing a single event lets every handler, first to last, see it.
pub proof fn lemma_single_event_processed<W, F: EventFilter<W>, A: EventAction<W>>(
    event: GameEventView,
    handlers: Seq<EventHandlerView<F, A>>,
    world: W,
)
    ensures
        events_processed(seq![event], handlers, world) == event_handled(handlers, world, event),
{
    assert(seq![event].drop_last() =~= Seq::<GameEventView>::empty());
    assert(seq![event].last() == event);
    assert(events_processed(Seq::<GameEventView>::empty(), handlers, world) == world);
}

} // verus!
