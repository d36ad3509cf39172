//! The states of the game application and the events that move between them.
use vstd::prelude::*;

verus! {

/// States of the asset loader.
#[derive(Clone, Copy, Debug, PartialEq, Eq, Structural)]
pub enum GameAssetsStates {
    Loading,
    Processing,
    Loaded,
}

impl Default for GameAssetsStates {
    fn default() -> (r: GameAssetsStates)
        ensures
            r == GameAssetsStates::Loading,
    {
        GameAssetsStates::Loading
    }
}

/// The state the asset loader moves to once the work of `state` is done: the asset
/// collection is loaded, then the section catalogue is registered. `None` once loaded.
pub fn next_assets_state(state: GameAssetsStates) -> (r: Option<GameAssetsStates>)
    ensures
        state == GameAssetsStates::Loading ==> r == Some(GameAssetsStates::Processing),
        state == GameAssetsStates::Processing ==> r == Some(GameAssetsStates::Loaded),
        state == GameAssetsStates::Loaded ==> r is None,
{
    match state {
        GameAssetsStates::Loading => Some(GameAssetsStates::Processing),
        GameAssetsStates::Processing => Some(GameAssetsStates::Loaded),
        GameAssetsStates::Loaded => None,
    }
}

/// Game states for the application.
#[derive(Clone, Copy, Debug, PartialEq, Eq, Structural)]
pub enum GameStates {
    Loading,
    Simulation,
    Editor,
}

impl Default for GameStates {
    fn default() -> (r: GameStates)
        ensures
            r == GameStates::Loading,
    {
        GameStates::Loading
    }
}

/// What happens that may change the game state.
#[derive(Clone, Copy, Debug, PartialEq, Eq, Structural)]
pub enum GameStateEvent {
    /// The assets have been loaded.
    AssetsLoaded,
    /// The editor key (F1) was pressed.
    EditorKeyPressed,
    /// The simulation was entered and no player spaceship exists.
    NoPlayerSpaceship,
    /// The editor's "Play" button was pressed.
    PlayPressed,
}

/// The state the game moves to on an event, or `None` when it stays: loaded assets
/// start the simulation; during the simulation the editor key, or the lack of a player
/// spaceship, opens the editor; in the editor "Play" returns to the simulation.
pub open spec fn game_transition(state: GameStates, event: GameStateEvent) -> Option<GameStates> {
    match (state, event) {
        (_, GameStateEvent::AssetsLoaded) => Some(GameStates::Simulation),
        (GameStates::Simulation, GameStateEvent::EditorKeyPressed) => Some(GameStates::Editor),
        (GameStates::Simulation, GameStateEvent::NoPlayerSpaceship) => Some(GameStates::Editor),
        (GameStates::Editor, GameStateEvent::PlayPressed) => Some(GameStates::Simulation),
        _ => None,
    }
}

/// Computes `game_transition`.
pub fn next_game_state(state: GameStates, event: GameStateEvent) -> (r: Option<GameStates>)
    ensures
        r == game_transition(state, event),
{
    match (state, event) {
        (_, GameStateEvent::AssetsLoaded) => Some(GameStates::Simulation),
        (GameStates::Simulation, GameStateEvent::EditorKeyPressed) => Some(GameStates::Editor),
        (GameStates::Simulation, GameStateEvent::NoPlayerSpaceship) => Some(GameStates::Editor),
        (GameStates::Editor, GameStateEvent::PlayPressed) => Some(GameStates::Simulation),
        _ => None,
    }
}

/// States of the editor prototype.
#[derive(Clone, Copy, Debug, PartialEq, Eq, Structural)]
pub enum ExampleStates {
    Loading,
    Editor,
    Scenario,
}

impl Default for ExampleStates {
    fn default() -> (r: ExampleStates)
        ensures
            r == ExampleStates::Loading,
    {
        ExampleStates::Loading
    }
}

/// What happens that may change the state of the editor prototype.
#[derive(Clone, Copy, Debug, PartialEq, Eq, Structural)]
pub enum ExampleStateEvent {
    /// The game started playing.
    GameStarted,
    /// The editor key (F1) was pressed.
    EditorKeyPressed,
}

/// The state the editor prototype moves to: it opens the editor when the game starts
/// playing, and leaves a scenario for the editor on the editor key.
pub fn next_example_state(state: ExampleStates, event: ExampleStateEvent) -> (r: Option<
    ExampleStates,
>)
    ensures
        r == match (state, event) {
            (_, ExampleStateEvent::GameStarted) => Some(ExampleStates::Editor),
            (ExampleStates::Scenario, ExampleStateEvent::EditorKeyPressed) => Some(
                ExampleStates::Editor,
            ),
            _ => None,
        },
{
    match (state, event) {
        (_, ExampleStateEvent::GameStarted) => Some(ExampleStates::Editor),
        (ExampleStates::Scenario, ExampleStateEvent::EditorKeyPressed) => Some(
            ExampleStates::Editor,
        ),
        _ => None,
    }
}

/// Once the game has left the loading state it never returns to it.
pub proof fn lemma_loading_is_never_reentered(state: GameStates, event: GameStateEvent)
    ensures
        game_transition(state, event) != Some(GameStates::Loading),
{
}

/// Until the assets are loaded only the loading of assets moves the game.
pub proof fn lemma_loading_waits_for_assets(event: GameStateEvent)
    requires
        event != GameStateEvent::AssetsLoaded,
    ensures
        game_transition(GameStates::Loading, event) is None,
{
}

} // verus!
