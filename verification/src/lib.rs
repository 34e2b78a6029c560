pub mod frame;
pub mod game;
pub mod invaders;
pub mod player;
pub mod render;
pub mod sounds;
