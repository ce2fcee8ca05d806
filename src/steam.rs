//! An entry of Steam's shortcut list.
use vstd::prelude::*;

verus! {

/// One non-Steam game as Steam lists it in its shortcuts.
pub struct SteamShortcut {
    pub appid: u32,
    pub appname: String,
    pub exe: String,
    pub start_dir: String,
    pub icon: String,
    pub shortcut_path: String,
    pub launch_options: String,
    pub is_hidden: u32,
    pub allow_desktop_config: u32,
    pub allow_overlay: u32,
    pub open_vr: u32,
    pub devkit: u32,
    pub devkit_game_id: String,
    pub devkit_override_appid: u32,
    pub last_play_time: u64,
    pub auto_close_shortcut: u32,
    pub dip_treat_remote_desktop_as_sitting_in_front_of_monitor: u32,
    pub fandom_tags: Vec<String>,
}

impl Default for SteamShortcut {
    /// An empty shortcut that allows the desktop configuration and the overlay.
    fn default() -> (r: Self)
        ensures
            r.appid == 0 && r.is_hidden == 0 && r.allow_desktop_config == 1 && r.allow_overlay == 1,
            r.open_vr == 0 && r.devkit == 0 && r.devkit_override_appid == 0,
            r.last_play_time == 0 && r.auto_close_shortcut == 0,
            r.dip_treat_remote_desktop_as_sitting_in_front_of_monitor == 0,
            r.appname@.len() == 0 && r.exe@.len() == 0 && r.start_dir@.len() == 0,
            r.icon@.len() == 0 && r.shortcut_path@.len() == 0 && r.launch_options@.len() == 0,
            r.devkit_game_id@.len() == 0 && r.fandom_tags@.len() == 0,
    {
        SteamShortcut {
            appid: 0,
            appname: String::new(),
            exe: String::new(),
            start_dir: String::new(),
            icon: String::new(),
            shortcut_path: String::new(),
            launch_options: String::new(),
            is_hidden: 0,
            allow_desktop_config: 1,
            allow_overlay: 1,
            open_vr: 0,
            devkit: 0,
            devkit_game_id: String::new(),
            devkit_override_appid: 0,
            last_play_time: 0,
            auto_close_shortcut: 0,
            dip_treat_remote_desktop_as_sitting_in_front_of_monitor: 0,
            fandom_tags: Vec::new(),
        }
    }
}

} // verus!
