//! App-level settings and the layout of the settings directory.
use vstd::prelude::*;

verus! {

/// The appearance preset applied to every newly spawned widget that has not
/// customized its own look. `opacity_bits` is the IEEE-754 bit pattern of
/// the opacity.
#[derive(Debug, Clone)]
pub struct DefaultWidgetAppearance {
    pub opacity_bits: u64,
    pub bg_color: String,
    pub border_enabled: bool,
    pub border_width: u32,
    pub border_color: String,
}

pub open spec fn is_default_preset(d: DefaultWidgetAppearance) -> bool {
    &&& d.opacity_bits == crate::appearance::FULL_OPACITY_BITS
    &&& d.bg_color@ == "#242424"@
    &&& !d.border_enabled
    &&& d.border_width == 2
    &&& d.border_color@ == "#ffffff"@
}

impl Default for DefaultWidgetAppearance {
    fn default() -> (d: Self)
        ensures
            is_default_preset(d),
    {
        DefaultWidgetAppearance {
            opacity_bits: crate::appearance::FULL_OPACITY_BITS,
            bg_color: "#242424".to_string(),
            border_enabled: false,
            border_width: 2,
            border_color: "#ffffff".to_string(),
        }
    }
}

} // verus!

verus! {

/// The app-level settings.
#[derive(Debug, Clone)]
pub struct Config {
    pub fullscreen_shortcut_hint: String,
    pub fullscreen_shortcut_restore_token: Option<String>,
    pub fullscreen_shortcut_bound_trigger: Option<String>,
    pub indicator_hide_delay_seconds: u32,
    pub indicator_opacity: u32,
    pub indicator_button_color: Option<String>,
    pub language: String,
    pub shortcuts_host_access: bool,
    pub accent_color: String,
    pub accent_follow_system: bool,
    pub default_widget_appearance: DefaultWidgetAppearance,
    /// Background image shown behind every widget page; `None` means the
    /// plain theme background.
    pub app_background_image_path: Option<String>,
}

pub open spec fn is_default_config(c: Config) -> bool {
    &&& c.fullscreen_shortcut_hint@ == "<Super>f"@
    &&& c.fullscreen_shortcut_restore_token is None
    &&& c.fullscreen_shortcut_bound_trigger is None
    &&& c.indicator_hide_delay_seconds == 2
    &&& c.indicator_opacity == 55
    &&& c.indicator_button_color is None
    &&& c.language@ == "fr"@
    &&& !c.shortcuts_host_access
    &&& c.accent_color@ == "#7e57c2"@
    &&& !c.accent_follow_system
    &&& is_default_preset(c.default_widget_appearance)
    &&& c.app_background_image_path is None
}

impl Default for Config {
    fn default() -> (c: Self)
        ensures
            is_default_config(c),
    {
        Config {
            fullscreen_shortcut_hint: "<Super>f".to_string(),
            fullscreen_shortcut_restore_token: None,
            fullscreen_shortcut_bound_trigger: None,
            indicator_hide_delay_seconds: 2,
            indicator_opacity: 55,
            indicator_button_color: None,
            language: "fr".to_string(),
            shortcuts_host_access: false,
            accent_color: "#7e57c2".to_string(),
            accent_follow_system: false,
            default_widget_appearance: DefaultWidgetAppearance::default(),
            app_background_image_path: None,
        }
    }
}

impl Config {
    /// The settings in effect after loading: the parsed file when there was
    /// one and it parsed, the defaults when the file was missing or corrupt.
    pub fn from_load_result(parsed: Option<Config>) -> (c: Config)
        ensures
            match parsed {
                Some(p) => c == p,
                None => is_default_config(c),
            },
    {
        match parsed {
            Some(p) => p,
            None => Config::default(),
        }
    }
}

/// The directory of the saved widgets inside the settings directory.
pub fn widgets_dir(config_dir: &str) -> (p: String)
    ensures
        p@ == crate::text::path_join(config_dir@, "widgets"@),
{
    crate::text::join_path(config_dir, "widgets")
}

/// The directory of the saved pages inside the settings directory.
pub fn pages_dir(config_dir: &str) -> (p: String)
    ensures
        p@ == crate::text::path_join(config_dir@, "pages"@),
{
    crate::text::join_path(config_dir, "pages")
}

/// The settings file inside the settings directory.
pub fn config_file(config_dir: &str) -> (p: String)
    ensures
        p@ == crate::text::path_join(config_dir@, "config.json"@),
{
    crate::text::join_path(config_dir, "config.json")
}

} // verus!

verus! {

/// Whether `p` is an absolute path.
pub open spec fn is_absolute(p: Seq<char>) -> bool {
    p.len() > 0 && p[0] == '/'
}

/// The base directory the settings directory lives in: `$XDG_CONFIG_HOME`
/// when it is set to an absolute path, `$HOME/.config` otherwise.
pub open spec fn config_base(xdg_config_home: Option<Seq<char>>, home: Seq<char>) -> Seq<char> {
    match xdg_config_home {
        Some(x) if is_absolute(x) => x,
        _ => crate::text::path_join(home, ".config"@),
    }
}

/// The directory of every persisted setting of the app, given the values
/// of `$XDG_CONFIG_HOME` (if set) and `$HOME` (empty if unset).
pub fn config_dir(xdg_config_home: Option<&str>, home: &str) -> (p: String)
    ensures
        p@ == crate::text::path_join(
            config_base(
                match xdg_config_home {
                    Some(x) => Some(x@),
                    None => None,
                },
                home@,
            ),
            "xeneon-dashboard-rs"@,
        ),
{
    let base = match xdg_config_home {
        Some(x) if crate::text::starts_with_char(x, '/') => x.to_string(),
        _ => crate::text::join_path(home, ".config"),
    };
    crate::text::join_path(base.as_str(), "xeneon-dashboard-rs")
}

} // verus!
