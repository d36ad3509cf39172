//! How the player's inputs switch the spaceship camera between its control modes.
use vstd::prelude::*;

verus! {

/// How the spaceship camera is controlled.
#[derive(Clone, Copy, Debug, PartialEq, Eq, Structural)]
pub enum CameraControlMode {
    /// The camera follows the spaceship and steers it.
    Normal,
    /// The camera looks around without steering.
    FreeLook,
    /// The camera aims the turrets.
    Turret,
}

impl Default for CameraControlMode {
    fn default() -> (r: CameraControlMode)
        ensures
            r == CameraControlMode::Normal,
    {
        CameraControlMode::Normal
    }
}

/// A change of the inputs that select the camera mode.
#[derive(Clone, Copy, Debug, PartialEq, Eq, Structural)]
pub enum CameraModeInput {
    FreeLookStarted,
    FreeLookCompleted,
    CombatStarted,
    CombatCompleted,
}

/// The camera mode after an input: holding the free-look key looks around, holding
/// the combat key aims the turrets, and releasing either returns to normal control.
pub fn camera_mode_after(input: CameraModeInput) -> (r: CameraControlMode)
    ensures
        input == CameraModeInput::FreeLookStarted ==> r == CameraControlMode::FreeLook,
        input == CameraModeInput::CombatStarted ==> r == CameraControlMode::Turret,
        (input == CameraModeInput::FreeLookCompleted || input == CameraModeInput::CombatCompleted)
            ==> r == CameraControlMode::Normal,
{
    match input {
        CameraModeInput::FreeLookStarted => CameraControlMode::FreeLook,
        CameraModeInput::CombatStarted => CameraControlMode::Turret,
        CameraModeInput::FreeLookCompleted => CameraControlMode::Normal,
        CameraModeInput::CombatCompleted => CameraControlMode::Normal,
    }
}

} // verus!
