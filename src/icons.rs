//! Where game icons are kept.
use vstd::prelude::*;

use crate::paths::{path_exists, Paths};
use crate::text::{append, join, join_path};

verus! {

/// Icon sizes for the library views.
#[derive(Debug, Clone, Copy, PartialEq, Eq, Structural)]
pub enum IconSize {
    Small,
    Medium,
    Large,
    XLarge,
}

impl IconSize {
    /// The edge of the icon in pixels.
    pub fn pixels(&self) -> (r: u32)
        ensures
            *self == IconSize::Small ==> r == 32,
            *self == IconSize::Medium ==> r == 64,
            *self == IconSize::Large ==> r == 128,
            *self == IconSize::XLarge ==> r == 256,
    {
        match self {
            IconSize::Small => 32,
            IconSize::Medium => 64,
            IconSize::Large => 128,
            IconSize::XLarge => 256,
        }
    }
}

/// Game icons on disk.
pub struct IconManager;

impl IconManager {
    /// The icon file of the game `game_id`.
    pub fn get_icon_path(paths: &Paths, game_id: &str) -> (r: String)
        ensures
            r@ == join(paths.icons_dir_spec(), game_id@ + ".png"@),
    {
        let dir = paths.icons_dir();
        let mut name = crate::text::owned(game_id);
        append(&mut name, ".png");
        join_path(dir.as_str(), name.as_str())
    }

    /// Whether the icon file of the game `game_id` exists.
    pub fn icon_exists(paths: &Paths, game_id: &str) -> bool {
        let p = Self::get_icon_path(paths, game_id);
        path_exists(p.as_str())
    }
}

} // verus!
