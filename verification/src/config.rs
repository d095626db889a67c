//! The popup's settings and their defaults.
use vstd::prelude::*;

verus! {

/// The popup's settings. Font size and line height are kept as the bit
/// patterns of their `f32` values (`f32::to_bits`).
pub struct Config {
    pub window_width: u32,
    pub window_height: u32,
    pub margin_bottom: i32,
    pub margin_left: i32,
    pub font_size_bits: u32,
    pub line_height_bits: u32,
    pub bg_color: u32,
    pub border_search_color: u32,
    pub border_list_color: u32,
    pub highlight_bg_color: u32,
    pub text_color: u32,
    pub app_tag_color: u32,
    pub project_tag_color: u32,
}

pub fn default_window_width() -> (res: u32)
    ensures
        res == 600,
{
    600
}

pub fn default_window_height() -> (res: u32)
    ensures
        res == 400,
{
    400
}

pub fn default_margin_bottom() -> (res: i32)
    ensures
        res == 20,
{
    20
}

pub fn default_margin_left() -> (res: i32)
    ensures
        res == 20,
{
    20
}

/// The bits of the `f32` value 16.0.
pub fn default_font_size_bits() -> (res: u32)
    ensures
        res == 0x4180_0000,
{
    0x4180_0000
}

/// The bits of the `f32` value 20.0.
pub fn default_line_height_bits() -> (res: u32)
    ensures
        res == 0x41A0_0000,
{
    0x41A0_0000
}

// The default colors are Catppuccin Macchiato, as ARGB.

pub fn default_bg_color() -> (res: u32)
    ensures
        res == 0xFF24273A,
{
    0xFF24273A
}

pub fn default_border_search_color() -> (res: u32)
    ensures
        res == 0xFF8BD5CA,
{
    0xFF8BD5CA
}

pub fn default_border_list_color() -> (res: u32)
    ensures
        res == 0xFF5B6078,
{
    0xFF5B6078
}

pub fn default_highlight_bg_color() -> (res: u32)
    ensures
        res == 0xFF363A4F,
{
    0xFF363A4F
}

pub fn default_text_color() -> (res: u32)
    ensures
        res == 0xFFCAD3F5,
{
    0xFFCAD3F5
}

pub fn default_app_tag_color() -> (res: u32)
    ensures
        res == 0xFFA6DA95,
{
    0xFFA6DA95
}

pub fn default_project_tag_color() -> (res: u32)
    ensures
        res == 0xFFC6A0F6,
{
    0xFFC6A0F6
}

/// The default settings.
pub open spec fn default_config() -> Config {
    Config {
        window_width: 600,
        window_height: 400,
        margin_bottom: 20,
        margin_left: 20,
        font_size_bits: 0x4180_0000,
        line_height_bits: 0x41A0_0000,
        bg_color: 0xFF24273A,
        border_search_color: 0xFF8BD5CA,
        border_list_color: 0xFF5B6078,
        highlight_bg_color: 0xFF363A4F,
        text_color: 0xFFCAD3F5,
        app_tag_color: 0xFFA6DA95,
        project_tag_color: 0xFFC6A0F6,
    }
}

impl Default for Config {
    fn default() -> (res: Self)
        ensures
            res == default_config(),
    {
        Config {
            window_width: default_window_width(),
            window_height: default_window_height(),
            margin_bottom: default_margin_bottom(),
            margin_left: default_margin_left(),
            font_size_bits: default_font_size_bits(),
            line_height_bits: default_line_height_bits(),
            bg_color: default_bg_color(),
            border_search_color: default_border_search_color(),
            border_list_color: default_border_list_color(),
            highlight_bg_color: default_highlight_bg_color(),
            text_color: default_text_color(),
            app_tag_color: default_app_tag_color(),
            project_tag_color: default_project_tag_color(),
        }
    }
}

/// What was found where the settings file belongs.
pub enum StoredConfig {
    /// There is no settings file.
    Missing,
    /// The file's settings, every missing field taking its default.
    Parsed(Config),
    /// The file could not be read as settings.
    Invalid,
}

/// The settings to use, and whether a file of default settings is to be written.
pub struct ConfigLoad {
    pub config: Config,
    pub write_default: bool,
}

impl Config {
    /// The settings to use given what was found: a missing file gives the
    /// defaults, which are then written out; a file that does not parse
    /// gives the defaults and is left alone.
    pub fn settle(stored: StoredConfig) -> (res: ConfigLoad)
        ensures
            match stored {
                StoredConfig::Missing => res.config == default_config() && res.write_default,
                StoredConfig::Parsed(c) => res.config == c && !res.write_default,
                StoredConfig::Invalid => res.config == default_config() && !res.write_default,
            },
    {
        match stored {
            StoredConfig::Missing => ConfigLoad { config: Config::default(), write_default: true },
            StoredConfig::Parsed(c) => ConfigLoad { config: c, write_default: false },
            StoredConfig::Invalid => ConfigLoad { config: Config::default(), write_default: false },
        }
    }
}

/// The default settings: a 600 by 400 window, 20 pixels from the bottom
/// left corner, 16 point text on 20 point lines (as `f32` bits), and the
/// Catppuccin Macchiato colors.
pub proof fn lemma_default_values()
    ensures
        default_config().window_width == 600,
        default_config().window_height == 400,
        default_config().margin_bottom == 20,
        default_config().margin_left == 20,
        default_config().font_size_bits == 0x4180_0000,
        default_config().line_height_bits == 0x41A0_0000,
        default_config().bg_color == 0xFF24273A,
        default_config().border_search_color == 0xFF8BD5CA,
        default_config().border_list_color == 0xFF5B6078,
        default_config().highlight_bg_color == 0xFF363A4F,
        default_config().text_color == 0xFFCAD3F5,
        default_config().app_tag_color == 0xFFA6DA95,
        default_config().project_tag_color == 0xFFC6A0F6,
{
}

} // verus!
