//! Kinds of game events.
use vstd::prelude::*;

verus! {

/// A kind of game event: it names the event and gives the type of its data.
///
/// Implemented by the game for each of its events.
pub trait EventKind {
    /// The data that an event of this kind carries.
    type Info;

    /// The name of this kind, as a sequence of characters. The default leaves it
    /// unspecified; a kind whose `name` is verified states it here.
    open spec fn spec_name() -> Seq<char> {
        arbitrary()
    }

    /// Returns the unique name of this kind.
    fn name() -> (r: &'static str)
        ensures
            r@ == Self::spec_name(),
    ;
}

} // verus!
