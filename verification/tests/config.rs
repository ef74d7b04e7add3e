use nexus_tui::config::{color_preset_names, parse_custom_color, Config, StoredConfig};

#[test]
fn defaults_match_the_documented_settings() {
    let c = Config::default();
    assert_eq!(c.player.mpv_path, "mpv");
    assert_eq!(c.player.extra_args, vec!["--no-terminal".to_string()]);
    assert_eq!(c.player.stream_mode, "sub");
    assert_eq!(c.player.quality, "best");
    assert_eq!(c.player.skip_segments, "none");
    assert_eq!(c.player.resume_offset_secs, 5);
    assert_eq!(c.ui.image_protocol, "auto");
    assert_eq!(c.ui.results_limit, 25);
    assert_eq!(c.ui.episode_cols, "auto");
    assert_eq!(c.theme.accent, "Yellow");
    assert_eq!(c.theme.bar_progress, "Yellow");
    assert_eq!(c.theme.bar_complete, "Teal");
    assert!(c.theme.accent_custom.is_empty());
}

#[test]
fn loading_falls_back_to_defaults() {
    let mut stored = Config::default();
    stored.player.quality = "720".to_string();
    assert_eq!(Config::load(StoredConfig::Parsed(stored)).player.quality, "720");
    assert_eq!(Config::load(StoredConfig::Missing).player.quality, "best");
    assert_eq!(Config::load(StoredConfig::Unreadable).theme.accent, "Yellow");
}

#[test]
fn a_sample_is_written_only_when_there_is_no_file() {
    assert!(Config::write_sample(true).is_none());
    assert_eq!(Config::write_sample(false).unwrap().player.mpv_path, "mpv");
}

#[test]
fn presets_have_fixed_colors() {
    assert_eq!(Config::color_rgb("Yellow"), (255, 255, 0));
    assert_eq!(Config::color_rgb("Cyan"), (0, 220, 255));
    assert_eq!(Config::color_rgb("Teal"), (0, 200, 150));
    assert_eq!(Config::color_rgb("White"), (220, 220, 220));
    assert_eq!(Config::accent_rgb("Pink"), (255, 80, 180));
}

#[test]
fn custom_colors_are_parsed_or_fall_back_to_yellow() {
    assert_eq!(Config::color_rgb("#ff8000"), (255, 128, 0));
    assert_eq!(Config::color_rgb("bogus"), (255, 255, 0));
    assert_eq!(Config::color_rgb("teal"), (255, 255, 0));
}

#[test]
fn custom_color_forms() {
    assert_eq!(parse_custom_color("#ff8000"), Some((255, 128, 0)));
    assert_eq!(parse_custom_color("  FF8000 "), Some((255, 128, 0)));
    assert_eq!(parse_custom_color("##0a0B0c"), Some((10, 11, 12)));
    assert_eq!(parse_custom_color("f80"), Some((255, 136, 0)));
    assert_eq!(parse_custom_color("10, 20 ,30"), Some((10, 20, 30)));
    assert_eq!(parse_custom_color("1,2,3,4"), Some((1, 2, 3)));
    assert_eq!(parse_custom_color("256,0,0"), None);
    assert_eq!(parse_custom_color("zz0000"), None);
    assert_eq!(parse_custom_color("1,2"), None);
    assert_eq!(parse_custom_color(""), None);
    assert_eq!(parse_custom_color("éé00"), None);
}

#[test]
fn short_comma_colors_are_read_in_the_comma_form() {
    assert_eq!(parse_custom_color("12,3,4"), Some((12, 3, 4)));
    assert_eq!(parse_custom_color("1,2,3"), Some((1, 2, 3)));
    assert_eq!(parse_custom_color("#1,2,3"), Some((1, 2, 3)));
    assert_eq!(Config::color_rgb("12,3,4"), (12, 3, 4));
}

#[test]
fn preset_names_end_with_custom() {
    let names = color_preset_names();
    assert_eq!(names.len(), 10);
    assert_eq!(names[0], "Yellow");
    assert_eq!(names[9], "Custom");
}
