//! Debug-mode toggle state.
use vstd::prelude::*;

verus! {

/// A flag after its toggle key is handled: flipped when the key was just pressed,
/// unchanged otherwise. Debug mode and the global wireframe toggle this way.
pub fn toggle_on_key(flag: bool, just_pressed: bool) -> (r: bool)
    ensures
        r == (if just_pressed { !flag } else { flag }),
{
    if just_pressed {
        !flag
    } else {
        flag
    }
}

/// Whether the debug tools (inspector, wireframe, physics gizmos) are enabled.
#[derive(Clone, Copy, Debug, PartialEq, Eq, Structural)]
pub struct DebugEnabled(pub bool);

impl Default for DebugEnabled {
    fn default() -> (r: DebugEnabled)
        ensures
            r.0 == false,
    {
        DebugEnabled(false)
    }
}

impl DebugEnabled {
    /// The state after the debug toggle key is handled.
    pub fn toggled_on_key(self, just_pressed: bool) -> (r: DebugEnabled)
        ensures
            r.0 == (if just_pressed { !self.0 } else { self.0 }),
    {
        DebugEnabled(toggle_on_key(self.0, just_pressed))
    }
}

} // verus!
