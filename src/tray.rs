//! Settings and messages of the system tray icon.
use vstd::prelude::*;

use crate::paths::{path_exists, Paths};
use crate::text::owned;

verus! {

/// Configuration of the system tray.
pub struct TrayConfig {
    /// Show the tray icon.
    pub enabled: bool,
    /// Start minimized to the tray.
    pub start_minimized: bool,
    /// Closing the window keeps the launcher in the tray.
    pub close_to_tray: bool,
    /// Show notifications from the tray.
    pub show_notifications: bool,
    /// Use the monochrome icon.
    pub is_mono: bool,
    /// A custom icon, if any.
    pub icon_path: Option<String>,
}

impl Default for TrayConfig {
    fn default() -> (r: Self)
        ensures
            !r.enabled && !r.start_minimized && !r.close_to_tray && r.show_notifications
                && !r.is_mono && r.icon_path is None,
    {
        TrayConfig {
            enabled: false,
            start_minimized: false,
            close_to_tray: false,
            show_notifications: true,
            is_mono: false,
            icon_path: None,
        }
    }
}

/// Events raised by the tray.
#[derive(Debug, Clone, Copy, PartialEq, Eq, Structural)]
pub enum TrayEvent {
    Show,
    Hide,
    Quit,
    TrayIconClicked,
    TrayIconDoubleClicked,
}

/// Messages sent to the tray.
#[derive(Debug)]
pub enum TrayMessage {
    SetWindowVisible(bool),
    ShowNotification { title: String, body: String },
    SetTooltip(String),
    Quit,
}

/// The image shown in the tray.
pub struct TrayIcon {
    icon_path: String,
}

impl TrayIcon {
    /// The tray image: the custom one when it exists, else the launcher's
    /// own icon; fails when neither can be found.
    pub fn new(custom_path: Option<String>, is_mono: bool, paths: &Paths) -> (r: Result<
        TrayIcon,
        String,
    >)
        ensures
            r is Err ==> r->Err_0@ == "No suitable tray icon found"@,
            r is Ok ==> (custom_path is Some && r->Ok_0.path_spec()@ == custom_path->0@)
                || paths.is_icon_location(
                if is_mono {
                    "faugus-mono.png"@
                } else {
                    "faugus-launcher.png"@
                },
                r->Ok_0.path_spec()@,
            ),
    {
        if let Some(p) = custom_path {
            if path_exists(p.as_str()) {
                return Ok(TrayIcon { icon_path: p });
            }
        }
        match paths.get_app_icon(is_mono) {
            Some(icon) => Ok(TrayIcon { icon_path: icon }),
            None => Err(owned("No suitable tray icon found")),
        }
    }

    /// The path of the image, as a value.
    pub closed spec fn path_spec(&self) -> String {
        self.icon_path
    }

    /// The path of the image.
    pub fn path(&self) -> (r: &String)
        ensures
            r == self.path_spec(),
    {
        &self.icon_path
    }
}

} // verus!
