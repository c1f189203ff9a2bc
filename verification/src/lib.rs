pub mod background;
pub mod battle;
pub mod bitmap;
pub mod engine;
pub mod game;
pub mod geometry;
pub mod numbers;
pub mod platform;
pub mod pose;
pub mod protocol;
pub mod session;
pub mod solo;
pub mod space_out;
pub mod sprite;
pub mod text;
pub mod timer;
pub mod utils;
