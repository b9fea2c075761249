//! The simulation core of an arena shooter: the actor pool, the per-tick
//! update and targeting pass, the reaction to physics contacts, and the
//! hand-off of a level built in the background.

pub mod actor;
pub mod bot;
pub mod character;
pub mod collision;
pub mod contact;
pub mod game;
pub mod handle;
pub mod history;
pub mod level;
pub mod loader;
pub mod message;
pub mod options;
pub mod persist;
pub mod player;
pub mod pool;
pub mod roster;
pub mod scalar;
pub mod text;
pub mod tick;
