//! Widgets of the interface, as far as they decide anything.

pub mod list;

pub use self::list::{List, ListRenderable};
