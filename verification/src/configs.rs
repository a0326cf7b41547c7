//! What the mod folder's configuration files hold.

use vstd::prelude::*;

verus! {

/// The mods to load, in load order. Each entry names a folder beside the
/// list.
#[derive(Clone, Debug, PartialEq, Eq)]
pub struct ModList {
    pub mods: Vec<String>,
}

/// What a mod says of itself.
#[derive(Clone, Debug, PartialEq, Eq)]
pub struct ModInfo {
    pub name: String,
    pub version: String,
    pub compatible_pvz_versions: Vec<String>,
    pub title: String,
    pub author: String,
    pub description: String,
    pub homepage: Option<String>,
    /// The libraries to inject into the game, as paths inside the mod's folder.
    pub target_dlls: Vec<String>,
}

} // verus!
