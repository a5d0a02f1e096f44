//! A grid-based snake game core: integer cell coordinates, nested drawing
//! viewports, uniform pickup placement, and the snake's per-tick state machine.
pub mod game;
pub mod point;
pub mod size;
pub mod sprite_renderer;
