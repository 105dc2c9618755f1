//! The data attached to entities and to the level.

pub mod ai;
pub mod camera;
pub mod combat;
pub mod drawable;
pub mod entity;
pub mod health;
pub mod input;
pub mod map;
pub mod player;
pub mod position;
pub mod ui;
