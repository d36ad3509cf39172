//! Verified gameplay logic of the Nova Protocol game: the game-event system,
//! triangle-mesh construction and slicing, and the editor and UI decisions.
pub mod camera;
pub mod debug;
pub mod editor;
pub mod mesh;
pub mod modding;
pub mod setup;
pub mod states;
pub mod text;
pub mod ui;
