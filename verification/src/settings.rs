//! The application's settings.

use vstd::prelude::*;

verus! {

/// What the user has chosen.
#[derive(Clone, Debug)]
pub struct AppSettings {
    pub tray_enabled: bool,
    pub window_visible: bool,
    pub silent_mode: bool,
    pub scheduler_enabled: bool,
    /// The time between two switches of the scheduler.
    pub scheduler_interval: u32,
    pub theme_dark: bool,
    pub theme_custom_colors: bool,
    pub theme_primary: [u8; 3],
    pub theme_secondary: [u8; 3],
    pub theme_accent: [u8; 3],
    pub hotkeys_enabled: bool,
    pub auto_startup_enabled: bool,
}

/// Whether `color` holds the three parts given.
pub open spec fn is_color(color: [u8; 3], red: u8, green: u8, blue: u8) -> bool {
    color[0] == red && color[1] == green && color[2] == blue
}

impl AppSettings {
    /// Whether these are the settings of a first start.
    pub open spec fn is_default(&self) -> bool {
        &&& !self.tray_enabled
        &&& self.window_visible
        &&& !self.silent_mode
        &&& !self.scheduler_enabled
        &&& self.scheduler_interval == 60
        &&& self.theme_dark
        &&& !self.theme_custom_colors
        &&& is_color(self.theme_primary, 147, 51, 234)
        &&& is_color(self.theme_secondary, 59, 130, 246)
        &&& is_color(self.theme_accent, 6, 182, 212)
        &&& self.hotkeys_enabled
        &&& !self.auto_startup_enabled
    }

    /// The settings that were read, or those of a first start where none
    /// could be read.
    pub fn load(stored: Option<AppSettings>) -> (out: AppSettings)
        ensures
            stored matches Some(s) ==> out == s,
            stored is None ==> out.is_default(),
    {
        match stored {
            Some(settings) => settings,
            None => AppSettings::default(),
        }
    }
}

impl Default for AppSettings {
    /// The settings of a first start.
    fn default() -> (out: AppSettings)
        ensures
            out.is_default(),
    {
        AppSettings {
            tray_enabled: false,
            window_visible: true,
            silent_mode: false,
            scheduler_enabled: false,
            scheduler_interval: 60,
            theme_dark: true,
            theme_custom_colors: false,
            theme_primary: [147, 51, 234],
            theme_secondary: [59, 130, 246],
            theme_accent: [6, 182, 212],
            hotkeys_enabled: true,
            auto_startup_enabled: false,
        }
    }
}

} // verus!
