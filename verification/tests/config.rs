use aooff::config::{
    default_app_tag_color, default_bg_color, default_border_list_color,
    default_border_search_color, default_font_size_bits, default_highlight_bg_color,
    default_line_height_bits, default_margin_bottom, default_margin_left,
    default_project_tag_color, default_text_color, default_window_height, default_window_width,
    Config, StoredConfig,
};

#[test]
fn default_values() {
    assert_eq!(default_window_width(), 600);
    assert_eq!(default_window_height(), 400);
    assert_eq!(default_margin_bottom(), 20);
    assert_eq!(default_margin_left(), 20);
    assert_eq!(f32::from_bits(default_font_size_bits()), 16.0);
    assert_eq!(f32::from_bits(default_line_height_bits()), 20.0);
    assert_eq!(default_bg_color(), 0xFF24273A);
    assert_eq!(default_border_search_color(), 0xFF8BD5CA);
    assert_eq!(default_border_list_color(), 0xFF5B6078);
    assert_eq!(default_highlight_bg_color(), 0xFF363A4F);
    assert_eq!(default_text_color(), 0xFFCAD3F5);
    assert_eq!(default_app_tag_color(), 0xFFA6DA95);
    assert_eq!(default_project_tag_color(), 0xFFC6A0F6);
}

#[test]
fn default_config_fields() {
    let c = Config::default();
    assert_eq!(c.window_width, 600);
    assert_eq!(c.window_height, 400);
    assert_eq!(c.margin_left, 20);
    assert_eq!(c.text_color, 0xFFCAD3F5);
    assert_eq!(f32::from_bits(c.line_height_bits), 20.0);
}

#[test]
fn settle_config() {
    let missing = Config::settle(StoredConfig::Missing);
    assert!(missing.write_default);
    assert_eq!(missing.config.window_width, 600);
    let mut mine = Config::default();
    mine.window_width = 800;
    let parsed = Config::settle(StoredConfig::Parsed(mine));
    assert!(!parsed.write_default);
    assert_eq!(parsed.config.window_width, 800);
    let invalid = Config::settle(StoredConfig::Invalid);
    assert!(!invalid.write_default);
    assert_eq!(invalid.config.bg_color, 0xFF24273A);
}
