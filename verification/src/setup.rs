//! How the game application is put together: which plugin sets it adds and how it
//! logs.
use vstd::prelude::*;

verus! {

/// The choices made while building the game application: whether the default game
/// plugins (the simulation and the editor) are added, and whether the game renders.
#[derive(Clone, Copy, Debug, PartialEq, Eq, Structural)]
pub struct AppBuilder {
    pub use_default_plugins: bool,
    pub render: bool,
}

impl AppBuilder {
    /// A builder that adds the default game plugins and renders.
    pub fn new() -> (r: AppBuilder)
        ensures
            r.use_default_plugins,
            r.render,
    {
        AppBuilder { use_default_plugins: true, render: true }
    }

    /// The builder once game plugins of the caller's own were added: the default
    /// ones are then left out.
    pub fn with_game_plugins(self) -> (r: AppBuilder)
        ensures
            !r.use_default_plugins,
            r.render == self.render,
    {
        AppBuilder { use_default_plugins: false, ..self }
    }

    /// The builder with rendering switched on or off.
    pub fn with_rendering(self, render: bool) -> (r: AppBuilder)
        ensures
            r.render == render,
            r.use_default_plugins == self.use_default_plugins,
    {
        AppBuilder { render, ..self }
    }

    /// Whether the built application gets the default game plugins.
    pub fn adds_default_game_plugins(&self) -> (r: bool)
        ensures
            r == self.use_default_plugins,
    {
        self.use_default_plugins
    }
}

/// The log filter of the application: the game's own crates log at debug level in
/// a debug build; otherwise only warnings of the noisy engine crates are shown.
pub fn log_filter(debug: bool) -> (r: &'static str)
    ensures
        debug ==> r@
            == "wgpu=error,bevy_render=info,bevy_ecs=warn,bevy_time=warn,naga=warn,bevy_common_systems=debug,nova_gameplay=debug,nova_assets=debug,nova_core=debug,nova_debug=debug"@,
        !debug ==> r@ == "wgpu=error,bevy_render=warn,bevy_ecs=warn,bevy_time=warn,naga=warn"@,
{
    if debug {
        "wgpu=error,bevy_render=info,bevy_ecs=warn,bevy_time=warn,naga=warn,bevy_common_systems=debug,nova_gameplay=debug,nova_assets=debug,nova_core=debug,nova_debug=debug"
    } else {
        "wgpu=error,bevy_render=warn,bevy_ecs=warn,bevy_time=warn,naga=warn"
    }
}

} // verus!
