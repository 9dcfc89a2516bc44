//! Verified logic of a small platformer in which a dog fetches its tennis
//! ball: the level file format, the window icon, the dog's controls, the
//! discrete state of a game and the decisions of each frame of the game
//! loop.
pub mod chance;
pub mod control;
pub mod frame;
pub mod game;
pub mod icon;
pub mod level;
