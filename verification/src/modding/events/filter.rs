//! Filters on the data of a typed game event.
use vstd::prelude::*;

use super::GameEventInfo;

verus! {

/// A filter that decides from the event data alone whether a handler's actions run.
///
/// Implemented by the game. The answer is taken to depend on the event data alone.
pub trait EventFilter {
    /// Whether the event data passes this filter. The default leaves it unspecified;
    /// a filter whose `filter` is verified states it here.
    open spec fn spec_filter(&self, info: GameEventInfo) -> bool {
        arbitrary()
    }

    /// Returns true if the event passes the filter.
    fn filter(&self, info: &GameEventInfo) -> (r: bool)
        ensures
            r == self.spec_filter(*info),
    ;

    /// Returns the name of the filter.
    fn name(&self) -> &'static str;
}

/// Every filter lets the event data through.
pub open spec fn filters_pass<F: EventFilter>(filters: Seq<F>, info: GameEventInfo) -> bool {
    forall|i: int| 0 <= i < filters.len() ==> #[trigger] filters[i].spec_filter(info)
}

/// A boxed filter is a filter: handlers can then hold filters of different types,
/// as `Box<dyn EventFilter>`.
impl<T: EventFilter + ?Sized> EventFilter for Box<T> {
    open spec fn spec_filter(&self, info: GameEventInfo) -> bool {
        (**self).spec_filter(info)
    }

    fn filter(&self, info: &GameEventInfo) -> (r: bool) {
        (**self).filter(info)
    }

    fn name(&self) -> &'static str {
        (**self).name()
    }
}

} // verus!
