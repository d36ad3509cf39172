//! Actions that respond to a typed game event by issuing commands.
use vstd::prelude::*;

use super::GameEventInfo;

verus! {

/// An action that responds to an event by issuing commands of type `C` (the game's
/// command buffer).
///
/// Implemented by the game. The commands after the action are taken to depend on the
/// commands before it and on the event data alone.
pub trait EventAction<C> {
    /// The command buffer after the action. The default leaves it unspecified; an
    /// action whose `action` is verified states it here.
    open spec fn spec_action(&self, commands: C, info: GameEventInfo) -> C {
        arbitrary()
    }

    /// Executes the action, issuing its commands.
    fn action(&self, commands: &mut C, info: &GameEventInfo)
        ensures
            *final(commands) == self.spec_action(*old(commands), *info),
    ;

    /// Returns the name of the action.
    fn name(&self) -> &'static str;
}

/// The command buffer after the actions are run, first to last.
pub open spec fn actions_applied<C, A: EventAction<C>>(
    actions: Seq<A>,
    commands: C,
    info: GameEventInfo,
) -> C
    decreases actions.len(),
{
    if actions.len() == 0 {
        commands
    } else {
        actions.last().spec_action(actions_applied(actions.drop_last(), commands, info), info)
    }
}

/// A boxed action is an action: handlers can then hold actions of different types,
/// as `Box<dyn EventAction<C>>`.
impl<C, T: EventAction<C> + ?Sized> EventAction<C> for Box<T> {
    open spec fn spec_action(&self, commands: C, info: GameEventInfo) -> C {
        (**self).spec_action(commands, info)
    }

    fn action(&self, commands: &mut C, info: &GameEventInfo) {
        (**self).action(commands, info)
    }

    fn name(&self) -> &'static str {
        (**self).name()
    }
}

} // verus!
