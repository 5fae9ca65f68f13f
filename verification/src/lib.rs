pub mod ai;
pub mod colors;
pub mod combat;
pub mod config;
pub mod entity;
pub mod fov;
pub mod helper;
pub mod intent;
pub mod interact;
pub mod items;
pub mod mapgen;
pub mod messages;
pub mod paths;
pub mod rng;
pub mod session;
pub mod spawn;
pub mod spells;
pub mod text;
pub mod tile;
pub mod turn;
pub mod visibility;
