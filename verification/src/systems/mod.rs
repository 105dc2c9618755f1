//! What happens tick by tick: pursuit, damage, death, and the panels.

pub mod ai;
pub mod combat;
pub mod ui;
