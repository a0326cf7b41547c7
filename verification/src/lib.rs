//! Mod loader core for Plants vs. Zombies: the PAK archive codec and the
//! protocol by which the game process is launched stalled, injected and released.

pub mod bytes;
pub mod configs;
pub mod overlay;
pub mod pak;
pub mod pvz_manager;
