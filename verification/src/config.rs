//! The player's settings and their defaults.

use vstd::prelude::*;

verus! {

/// The player's settings.
#[derive(Debug)]
pub struct Config {
    pub welcome_message: String,
    pub auto_play: bool,
    pub theme: String,
    pub accent_color: String,
    pub hardware_acceleration: bool,
    pub auto_update: bool,
}

impl Config {
    /// The settings used when none are saved yet: a greeting, no autoplay,
    /// the dark theme with an orange accent, hardware acceleration and
    /// automatic updates on.
    pub fn default() -> (c: Self)
        ensures
            c.welcome_message@ == "Hola desde tu configuración personalizada!"@,
            !c.auto_play,
            c.theme@ == "dark"@,
            c.accent_color@ == "#ff8a00"@,
            c.hardware_acceleration,
            c.auto_update,
    {
        Config {
            welcome_message: "Hola desde tu configuración personalizada!".to_owned(),
            auto_play: false,
            theme: "dark".to_owned(),
            accent_color: "#ff8a00".to_owned(),
            hardware_acceleration: true,
            auto_update: true,
        }
    }
}

} // verus!
