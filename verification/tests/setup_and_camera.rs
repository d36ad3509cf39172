use nova_protocol::camera::{camera_mode_after, CameraControlMode, CameraModeInput};
use nova_protocol::setup::{log_filter, AppBuilder};

#[test]
fn builder_adds_default_plugins_unless_game_plugins_are_given() {
    let builder = AppBuilder::new();
    assert!(builder.adds_default_game_plugins());
    assert!(builder.render);
    let builder = builder.with_rendering(false);
    assert!(builder.adds_default_game_plugins());
    assert!(!builder.render);
    let builder = builder.with_game_plugins();
    assert!(!builder.adds_default_game_plugins());
    assert!(!builder.render);
    let builder = builder.with_rendering(true);
    assert!(!builder.adds_default_game_plugins());
    assert!(builder.render);
}

#[test]
fn log_filter_depends_on_the_build() {
    assert_eq!(
        log_filter(false),
        "wgpu=error,bevy_render=warn,bevy_ecs=warn,bevy_time=warn,naga=warn"
    );
    assert!(log_filter(true).starts_with("wgpu=error,bevy_render=info,"));
    assert!(log_filter(true).ends_with("nova_core=debug,nova_debug=debug"));
}

#[test]
fn camera_mode_follows_the_held_keys() {
    assert_eq!(CameraControlMode::default(), CameraControlMode::Normal);
    assert_eq!(camera_mode_after(CameraModeInput::FreeLookStarted), CameraControlMode::FreeLook);
    assert_eq!(camera_mode_after(CameraModeInput::FreeLookCompleted), CameraControlMode::Normal);
    assert_eq!(camera_mode_after(CameraModeInput::CombatStarted), CameraControlMode::Turret);
    assert_eq!(camera_mode_after(CameraModeInput::CombatCompleted), CameraControlMode::Normal);
}
