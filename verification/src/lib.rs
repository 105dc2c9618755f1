//! A turn-based tactical simulation kernel on a bounded grid: the map, the
//! line tracer, the dungeon generator, the combat resolver and the turn
//! handshake, each stated over a mathematical model and proved against it.

pub mod components;
pub mod screen;
pub mod systems;
pub mod ui;
pub mod util;
