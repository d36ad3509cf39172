//! Game events: event kinds, handlers with filters and actions, and the event queue.
pub mod events;
