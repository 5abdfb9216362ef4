//! User-facing configuration and the page selector. Reading and writing the
//! configuration file is the embedding application's business; this module
//! holds the values and their defaults.

use vstd::prelude::*;
use vstd::string::*;

verus! {

/// The pages a frontend can show.
#[derive(Debug, Clone, Copy, PartialEq, Eq, Structural)]
pub enum Page {
    PluginMarket,
    PluginManage,
    Settings,
}

/// The color theme choice.
#[derive(Debug, Clone, Copy, PartialEq, Eq, Structural)]
pub enum ColorMode {
    System,
    Light,
    Dark,
}

impl Default for ColorMode {
    /// The theme follows the system unless chosen otherwise.
    fn default() -> (r: Self)
        ensures
            r == ColorMode::System,
    {
        ColorMode::System
    }
}

/// The persisted user configuration.
pub struct AppConfig {
    pub color_mode: ColorMode,
    pub download_threads: u32,
    pub default_boot_drive: Option<String>,
    pub default_download_path: Option<String>,
}

impl Default for AppConfig {
    /// Eight download threads, system theme, no defaults chosen.
    fn default() -> (r: Self)
        ensures
            r.color_mode == ColorMode::System,
            r.download_threads == 8,
            r.default_boot_drive is None,
            r.default_download_path is None,
    {
        AppConfig {
            color_mode: ColorMode::System,
            download_threads: 8,
            default_boot_drive: None,
            default_download_path: None,
        }
    }
}

impl Clone for AppConfig {
    fn clone(&self) -> (r: Self)
        ensures
            r.color_mode == self.color_mode,
            r.download_threads == self.download_threads,
            r.default_boot_drive == self.default_boot_drive,
            r.default_download_path == self.default_download_path,
    {
        let default_boot_drive: Option<String> = match &self.default_boot_drive {
            Some(s) => Some(s.clone()),
            None => None,
        };
        let default_download_path: Option<String> = match &self.default_download_path {
            Some(s) => Some(s.clone()),
            None => None,
        };
        AppConfig {
            color_mode: self.color_mode,
            download_threads: self.download_threads,
            default_boot_drive,
            default_download_path,
        }
    }
}

} // verus!
