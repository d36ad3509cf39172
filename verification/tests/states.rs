use nova_protocol::states::{
    next_assets_state, next_example_state, next_game_state, ExampleStateEvent, ExampleStates,
    GameAssetsStates, GameStateEvent, GameStates,
};

#[test]
fn assets_load_then_process_then_stay_loaded() {
    assert_eq!(GameAssetsStates::default(), GameAssetsStates::Loading);
    assert_eq!(next_assets_state(GameAssetsStates::Loading), Some(GameAssetsStates::Processing));
    assert_eq!(next_assets_state(GameAssetsStates::Processing), Some(GameAssetsStates::Loaded));
    assert_eq!(next_assets_state(GameAssetsStates::Loaded), None);
}

#[test]
fn game_moves_between_simulation_and_editor() {
    assert_eq!(GameStates::default(), GameStates::Loading);
    assert_eq!(next_game_state(GameStates::Loading, GameStateEvent::AssetsLoaded), Some(GameStates::Simulation));
    assert_eq!(next_game_state(GameStates::Loading, GameStateEvent::EditorKeyPressed), None);
    assert_eq!(next_game_state(GameStates::Simulation, GameStateEvent::EditorKeyPressed), Some(GameStates::Editor));
    assert_eq!(next_game_state(GameStates::Simulation, GameStateEvent::NoPlayerSpaceship), Some(GameStates::Editor));
    assert_eq!(next_game_state(GameStates::Simulation, GameStateEvent::PlayPressed), None);
    assert_eq!(next_game_state(GameStates::Editor, GameStateEvent::PlayPressed), Some(GameStates::Simulation));
    assert_eq!(next_game_state(GameStates::Editor, GameStateEvent::EditorKeyPressed), None);
}

#[test]
fn example_states_open_the_editor() {
    assert_eq!(ExampleStates::default(), ExampleStates::Loading);
    assert_eq!(
        next_example_state(ExampleStates::Loading, ExampleStateEvent::GameStarted),
        Some(ExampleStates::Editor)
    );
    assert_eq!(
        next_example_state(ExampleStates::Scenario, ExampleStateEvent::EditorKeyPressed),
        Some(ExampleStates::Editor)
    );
    assert_eq!(next_example_state(ExampleStates::Editor, ExampleStateEvent::EditorKeyPressed), None);
}
