//! What the renderer on the graphics card shares with the rest: its keys, the
//! keys held down for the camera, and its grid and buffer sizes.
pub mod camera;
pub mod input;
pub mod state_windowless;
