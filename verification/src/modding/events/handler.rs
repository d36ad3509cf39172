//! Handlers of the events of one kind.
use std::marker::PhantomData;
use vstd::prelude::*;

use super::action::{actions_applied, EventAction};
use super::filter::{filters_pass, EventFilter};
use super::GameEventInfo;

verus! {

/// A handler for the events of the kind `E`: filters, then actions.
pub struct EventHandler<E, F, A> {
    filters: Vec<F>,
    actions: Vec<A>,
    _marker: PhantomData<E>,
}

/// What a handler is: its filters and its actions.
pub struct EventHandlerView<F, A> {
    pub filters: Seq<F>,
    pub actions: Seq<A>,
}

impl<E, F, A> View for EventHandler<E, F, A> {
    type V = EventHandlerView<F, A>;

    closed spec fn view(&self) -> EventHandlerView<F, A> {
        EventHandlerView { filters: self.filters@, actions: self.actions@ }
    }
}

impl<E, F, A> Default for EventHandler<E, F, A> {
    fn default() -> (r: Self)
        ensures
            r@.filters == Seq::<F>::empty(),
            r@.actions == Seq::<A>::empty(),
    {
        Self::new()
    }
}

impl<E, F, A> EventHandler<E, F, A> {
    /// Creates a handler with no filters and no actions.
    pub fn new() -> (r: Self)
        ensures
            r@.filters == Seq::<F>::empty(),
            r@.actions == Seq::<A>::empty(),
    {
        EventHandler { filters: Vec::new(), actions: Vec::new(), _marker: PhantomData }
    }

    /// Adds a filter to the handler (builder-style).
    pub fn with_filter(self, f: F) -> (r: Self)
        ensures
            r@.filters == self@.filters.push(f),
            r@.actions == self@.actions,
    {
        let mut h = self;
        h.filters.push(f);
        h
    }

    /// Adds a filter to the handler.
    pub fn add_filter(&mut self, f: F)
        ensures
            final(self)@.filters == old(self)@.filters.push(f),
            final(self)@.actions == old(self)@.actions,
    {
        self.filters.push(f);
    }

    /// Adds an action to the handler (builder-style).
    pub fn with_action(self, a: A) -> (r: Self)
        ensures
            r@.filters == self@.filters,
            r@.actions == self@.actions.push(a),
    {
        let mut h = self;
        h.actions.push(a);
        h
    }

    /// Adds an action to the handler.
    pub fn add_action(&mut self, a: A)
        ensures
            final(self)@.filters == old(self)@.filters,
            final(self)@.actions == old(self)@.actions.push(a),
    {
        self.actions.push(a);
    }

    /// Checks if the event data passes all filters.
    pub fn filter(&self, info: &GameEventInfo) -> (r: bool)
        where F: EventFilter,
        ensures
            r == filters_pass(self@.filters, *info),
    {
        let n = self.filters.len();
        let mut i: usize = 0;
        while i < n
            invariant
                n == self.filters@.len(),
                0 <= i <= n,
                forall|j: int| 0 <= j < i ==> #[trigger] self.filters@[j].spec_filter(*info),
            decreases n - i,
        {
            if !self.filters[i].filter(info) {
                return false;
            }
            i = i + 1;
        }
        true
    }

    /// Runs the actions, first to last.
    pub fn run_actions<C>(&self, commands: &mut C, info: &GameEventInfo)
        where A: EventAction<C>,
        ensures
            *final(commands) == actions_applied(self@.actions, *old(commands), *info),
    {
        let n = self.actions.len();
        let mut i: usize = 0;
        while i < n
            invariant
                n == self.actions@.len(),
                0 <= i <= n,
                *commands == actions_applied(self.actions@.take(i as int), *old(commands), *info),
            decreases n - i,
        {
            assert(self.actions@.take(i + 1).drop_last() == self.actions@.take(i as int));
            self.actions[i].action(commands, info);
            i = i + 1;
        }
        assert(self.actions@.take(n as int) == self.actions@);
    }
}

} // verus!
