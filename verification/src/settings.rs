//! Application settings: a plainly-keyed record persisted by an unverified
//! boundary as JSON. The library holds the type, its defaults and the
//! settings-file path rule; reading and writing the file, and the JSON
//! encoding, stay outside.

use vstd::prelude::*;

verus! {

/// The persisted application settings, window geometry included.
#[derive(Clone, Debug)]
pub struct AppSettings {
    /// Name of the profile in use.
    pub selected_profile: String,
    /// Whether a price is copied to the clipboard on every snapshot.
    pub auto_copy_enabled: bool,
    /// Which price is copied: "sell", "buy", "sell95" or "buy95".
    pub auto_copy_mode: String,
    /// Last saved window position, if any.
    pub window_x: Option<i32>,
    pub window_y: Option<i32>,
    /// Last saved window size, if any.
    pub window_width: Option<u32>,
    pub window_height: Option<u32>,
}

impl AppSettings {
    /// The settings a fresh installation starts from: the Default profile,
    /// auto-copy off in sell mode, no saved window geometry.
    pub fn default() -> (r: AppSettings)
        ensures
            r.selected_profile@ == "Default"@,
            r.auto_copy_enabled == false,
            r.auto_copy_mode@ == "sell"@,
            r.window_x is None,
            r.window_y is None,
            r.window_width is None,
            r.window_height is None,
    {
        AppSettings {
            selected_profile: String::from_str("Default"),
            auto_copy_enabled: false,
            auto_copy_mode: String::from_str("sell"),
            window_x: None,
            window_y: None,
            window_width: None,
            window_height: None,
        }
    }

    /// The path of the settings file under the application data directory.
    pub fn get_settings_path(app_data_dir: &str) -> (r: String)
        ensures
            r@ == app_data_dir@ + "/settings.json"@,
    {
        String::from_str(app_data_dir).concat("/settings.json")
    }
}

/// The settings as the command surface carries them: the persisted record
/// without the window geometry.
#[derive(Clone, Debug)]
pub struct AppSettingsDto {
    pub selected_profile: String,
    pub auto_copy_enabled: bool,
    pub auto_copy_mode: String,
}

impl From<AppSettings> for AppSettingsDto {
    fn from(settings: AppSettings) -> (r: AppSettingsDto) {
        AppSettingsDto {
            selected_profile: settings.selected_profile,
            auto_copy_enabled: settings.auto_copy_enabled,
            auto_copy_mode: settings.auto_copy_mode,
        }
    }
}

impl vstd::std_specs::convert::FromSpecImpl<AppSettings> for AppSettingsDto {
    open spec fn obeys_from_spec() -> bool {
        true
    }

    open spec fn from_spec(settings: AppSettings) -> AppSettingsDto {
        AppSettingsDto {
            selected_profile: settings.selected_profile,
            auto_copy_enabled: settings.auto_copy_enabled,
            auto_copy_mode: settings.auto_copy_mode,
        }
    }
}

impl From<AppSettingsDto> for AppSettings {
    fn from(dto: AppSettingsDto) -> (r: AppSettings) {
        AppSettings {
            selected_profile: dto.selected_profile,
            auto_copy_enabled: dto.auto_copy_enabled,
            auto_copy_mode: dto.auto_copy_mode,
            window_x: None,
            window_y: None,
            window_width: None,
            window_height: None,
        }
    }
}

impl vstd::std_specs::convert::FromSpecImpl<AppSettingsDto> for AppSettings {
    open spec fn obeys_from_spec() -> bool {
        true
    }

    open spec fn from_spec(dto: AppSettingsDto) -> AppSettings {
        AppSettings {
            selected_profile: dto.selected_profile,
            auto_copy_enabled: dto.auto_copy_enabled,
            auto_copy_mode: dto.auto_copy_mode,
            window_x: None,
            window_y: None,
            window_width: None,
            window_height: None,
        }
    }
}

} // verus!
